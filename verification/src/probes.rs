//! Probes of model servers and system services.

pub mod absences;
pub mod config;
pub mod laws;
pub mod llm;
pub mod service;
pub mod values;
