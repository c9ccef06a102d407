//! NVIDIA GPU collectors.

pub mod capabilities;
pub mod collector;
pub mod laws;
pub mod smi;
pub mod values;
pub mod xid;
