//! The agent: what it publishes, when, and which health events it raises.

pub mod envelope;
pub mod events;
pub mod inventory;
pub mod laws;
pub mod naming;
pub mod publish;
pub mod schedule;
