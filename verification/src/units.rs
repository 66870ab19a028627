//! The units in which an entry is measured.

pub mod system;
