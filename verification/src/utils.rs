//! Small helpers shared by the scan engine.

pub mod math;
pub mod sequence;
pub mod sync;
pub mod text;
pub mod tree;
