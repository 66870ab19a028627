//! What a scan has found so far: the entries that are kept, the failures,
//! and the totals.

use vstd::prelude::*;
use crate::file_system::entry::{views, Entry, FsEntry};
use crate::file_system::error::{failures, lemma_failures_push, ScanError};
use crate::stats::ScanStats;

verus! {

/// The outcome of a scan while its results come in.
pub struct ScanReport {
    /// The entries that are kept, in the order in which they came.
    pub results: Vec<FsEntry>,
    /// Every failure, in the order in which the results came.
    pub errors: Vec<ScanError>,
    /// The totals over the entries that are kept.
    pub stats: ScanStats,
}

/// The size of `entry` is within the bounds that are there. A size that is
/// not known counts as 0.
pub open spec fn in_size_range(entry: Entry, min_size: Option<u64>, max_size: Option<u64>) -> bool {
    &&& (min_size matches Some(least) ==> entry.known_size() >= least)
    &&& (max_size matches Some(most) ==> entry.known_size() <= most)
}

/// Tells whether the size of `fse` is within the bounds that are there.
pub fn size_in_range(fse: &FsEntry, min_size: Option<u64>, max_size: Option<u64>) -> (within: bool)
    ensures
        within == in_size_range(fse@, min_size, max_size),
{
    let size = match fse.size() {
        Some(size) => size,
        None => 0,
    };
    let above = match min_size {
        Some(least) => size >= least,
        None => true,
    };
    let below = match max_size {
        Some(most) => size <= most,
        None => true,
    };
    above && below
}

impl ScanReport {
    /// A report without results.
    pub fn new() -> (report: Self)
        ensures
            report.results@.len() == 0,
            report.errors@.len() == 0,
            report.stats == ScanStats::empty(),
    {
        ScanReport { results: Vec::new(), errors: Vec::new(), stats: ScanStats::default() }
    }

    /// Takes the verdict of a filter on a listed item: the item goes into the
    /// scan where the verdict is yes. Where the filter could not tell, its
    /// failure is recorded and the item is left out.
    pub fn admits(&mut self, verdict: Result<bool, ScanError>) -> (admitted: bool)
        ensures
            final(self).results == old(self).results,
            final(self).stats == old(self).stats,
            match verdict {
                Ok(kept) => admitted == kept && final(self).errors == old(self).errors,
                Err(error) => !admitted && failures(final(self).errors@) == failures(
                    old(self).errors@,
                ).push(error@),
            },
    {
        match verdict {
            Ok(kept) => kept,
            Err(error) => {
                proof {
                    lemma_failures_push(self.errors@, error);
                }
                self.errors.push(error);
                false
            },
        }
    }

    /// Takes the result for one top-level entry. Its failures are recorded in
    /// any case. The entry is kept, and counted in the totals, where its size
    /// is within the bounds; else it is dropped.
    pub fn receive(
        &mut self,
        fse: FsEntry,
        errs: Vec<ScanError>,
        min_size: Option<u64>,
        max_size: Option<u64>,
    )
        requires
            old(self).stats.can_apply(fse@),
        ensures
            failures(final(self).errors@) == failures(old(self).errors@) + failures(errs@),
            in_size_range(fse@, min_size, max_size) ==> {
                &&& views(final(self).results@) == views(old(self).results@).push(fse@)
                &&& final(self).stats == old(self).stats.applied(fse@)
            },
            !in_size_range(fse@, min_size, max_size) ==> {
                &&& views(final(self).results@) == views(old(self).results@)
                &&& final(self).stats == old(self).stats
            },
    {
        let mut errs = errs;
        let ghost coming = errs@;
        self.errors.append(&mut errs);
        proof {
            assert(failures(self.errors@) =~= failures(old(self).errors@) + failures(coming));
        }
        if size_in_range(&fse, min_size, max_size) {
            self.stats.apply_entry(&fse);
            proof {
                assert(views(self.results@.push(fse)) =~= views(self.results@).push(fse@));
            }
            self.results.push(fse);
        }
    }
}

} // verus!
