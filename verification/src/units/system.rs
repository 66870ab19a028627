//! Choosing what to measure of an entry: bytes or lines.

use vstd::prelude::*;
use crate::file_system::entry::{Entry, FsEntry};

verus! {

/// How the measure of an entry is written: bytes as a plain number, bytes in
/// decimal or binary multiples, or lines.
#[derive(Clone, Copy, Debug, PartialEq, Eq, Hash, Structural)]
pub enum UnitSystem {
    Raw,
    SI,
    Binary,
    Lines,
}

impl UnitSystem {
    /// The number that measures `entry`: its lines where lines are the unit,
    /// else its size; 0 where that is not known.
    pub open spec fn measure(self, entry: Entry) -> u64 {
        let known = if self == UnitSystem::Lines {
            entry.lines()
        } else {
            entry.size()
        };
        match known {
            Some(units) => units,
            None => 0,
        }
    }

    /// The number that measures `fse` in this unit system.
    pub fn units_of(&self, fse: &FsEntry) -> (units: u64)
        ensures
            units == self.measure(fse@),
    {
        let known = match self {
            UnitSystem::Lines => fse.lines(),
            _ => fse.size(),
        };
        match known {
            Some(units) => units,
            None => 0,
        }
    }

    /// Of the two totals of a scan, the one that this unit system shows.
    pub fn total_of(&self, total_size: u64, total_lines: u64) -> (units: u64)
        ensures
            units == if *self == UnitSystem::Lines {
                total_lines
            } else {
                total_size
            },
    {
        match self {
            UnitSystem::Lines => total_lines,
            _ => total_size,
        }
    }
}

} // verus!
