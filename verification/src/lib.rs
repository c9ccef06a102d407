//! Verified core of a host telemetry agent and its OpenTelemetry bridge.

pub mod agent;
pub mod arith;
pub mod bridge;
pub mod catalogue;
pub mod doubles;
pub mod linux;
pub mod nvidia;
pub mod probes;
pub mod rows;
pub mod schema;
pub mod series;
pub mod signal_policy;
pub mod table;
pub mod text;
