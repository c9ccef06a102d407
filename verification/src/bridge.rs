//! What becomes of signals in OpenTelemetry.

pub mod laws;
pub mod maple;
pub mod plugins;
pub mod privileges;
pub mod record;
pub mod standard;
pub mod target_laws;
pub mod unavailable_log;
