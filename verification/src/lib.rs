//! Detection of storage media that misreport their capacity.
//!
//! The library generates self-describing sector patterns, classifies what is
//! read back, and calibrates how much data is processed between two
//! throughput measurements.

pub mod cli;
pub mod file_fill;
pub mod flow;
pub mod flow_model;
pub mod read;
pub mod utils;
pub mod verify;
pub mod write;
