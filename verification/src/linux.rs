//! Linux host collectors: the contents of procfs and sysfs files in, metric
//! points and inventory attributes out.

pub mod absences;
pub mod inventory;
pub mod kernel;
pub mod laws;
pub mod network;
pub mod parse;
pub mod points;
pub mod storage;
pub mod system;
pub mod thermal;
pub mod values;
pub mod wholes;
