//! The texts that report a scan.

pub mod chart;
pub mod errors;
pub mod summary;
