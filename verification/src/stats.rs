//! Running totals over the top-level entries of a scan.

use vstd::prelude::*;
use crate::file_system::entry::{display_len, Entry, FsEntry};
use crate::utils::math::{
    count_digits, digit_count, lemma_digit_count_grows, lemma_digit_count_u64,
};

verus! {

/// Totals over the entries seen so far. Each entry is applied once, in any
/// order.
#[derive(Clone, Copy, Debug, PartialEq, Eq, Structural)]
pub struct ScanStats {
    /// Sum of the sizes that are known.
    pub total_size: u64,
    /// Sum of the lines counted in the entries and below them.
    pub total_lines: u64,
    /// The largest known size.
    pub max_size: u64,
    /// The most digits that a known size takes; 0 while no size is known.
    pub max_size_digits: usize,
    /// The most bytes that the text for a name takes.
    pub max_name_len: usize,
    pub dir_count: usize,
    pub file_count: usize,
    pub unknown_count: usize,
}

/// The larger of two numbers.
pub open spec fn larger(a: int, b: int) -> int {
    if a >= b {
        a
    } else {
        b
    }
}

impl ScanStats {
    /// The totals before any entry.
    pub open spec fn empty() -> ScanStats {
        ScanStats {
            total_size: 0,
            total_lines: 0,
            max_size: 0,
            max_size_digits: 0,
            max_name_len: 0,
            dir_count: 0,
            file_count: 0,
            unknown_count: 0,
        }
    }

    /// The totals can take `entry` without a sum or a count passing what its
    /// type holds.
    pub open spec fn can_apply(self, entry: Entry) -> bool {
        &&& self.total_size + entry.known_size() <= u64::MAX
        &&& self.total_lines + entry.line_total() <= u64::MAX
        &&& entry.name().len() <= usize::MAX
        &&& (entry is Dir ==> self.dir_count < usize::MAX)
        &&& (entry is File ==> self.file_count < usize::MAX)
        &&& (entry is Unknown ==> self.unknown_count < usize::MAX)
    }

    /// The totals with `entry` applied. An entry without a size adds nothing
    /// to the sum of sizes and leaves the largest size and its digits alone.
    pub open spec fn applied(self, entry: Entry) -> ScanStats {
        ScanStats {
            total_size: (self.total_size + entry.known_size()) as u64,
            total_lines: (self.total_lines + entry.line_total()) as u64,
            max_size: match entry.size() {
                Some(size) => larger(self.max_size as int, size as int) as u64,
                None => self.max_size,
            },
            max_size_digits: match entry.size() {
                Some(size) => larger(
                    self.max_size_digits as int,
                    digit_count(size as nat) as int,
                ) as usize,
                None => self.max_size_digits,
            },
            max_name_len: larger(
                self.max_name_len as int,
                display_len(entry.name()) as int,
            ) as usize,
            dir_count: if entry is Dir {
                (self.dir_count + 1) as usize
            } else {
                self.dir_count
            },
            file_count: if entry is File {
                (self.file_count + 1) as usize
            } else {
                self.file_count
            },
            unknown_count: if entry is Unknown {
                (self.unknown_count + 1) as usize
            } else {
                self.unknown_count
            },
        }
    }

    /// The most digits are those of the largest size; there are none while no
    /// size is known.
    pub open spec fn digits_match(self) -> bool {
        ||| self.max_size_digits == 0 && self.max_size == 0
        ||| self.max_size_digits == digit_count(self.max_size as nat)
    }

    /// The digits of the largest size stay the most digits when an entry is
    /// applied.
    pub proof fn lemma_digits_match(self, entry: Entry)
        requires
            self.digits_match(),
        ensures
            self.applied(entry).digits_match(),
    {
        if let Some(size) = entry.size() {
            lemma_digit_count_u64(size);
            lemma_digit_count_u64(self.max_size);
            if size <= self.max_size {
                lemma_digit_count_grows(size as nat, self.max_size as nat);
            } else {
                lemma_digit_count_grows(self.max_size as nat, size as nat);
            }
        }
    }

    /// The totals with each of `entries` applied in turn.
    pub open spec fn applied_all(self, entries: Seq<Entry>) -> ScanStats
        decreases entries.len(),
    {
        if entries.len() == 0 {
            self
        } else {
            self.applied_all(entries.drop_last()).applied(entries.last())
        }
    }

    /// The totals can take each of `entries` in turn.
    pub open spec fn can_apply_all(self, entries: Seq<Entry>) -> bool
        decreases entries.len(),
    {
        entries.len() == 0 || (self.can_apply_all(entries.drop_last()) && self.applied_all(
            entries.drop_last(),
        ).can_apply(entries.last()))
    }

    /// Two entries can be applied in either order, with the same totals.
    pub proof fn lemma_apply_commutes(self, first: Entry, second: Entry)
        requires
            self.can_apply(first),
            self.applied(first).can_apply(second),
        ensures
            self.can_apply(second),
            self.applied(second).can_apply(first),
            self.applied(first).applied(second) == self.applied(second).applied(first),
    {
        if let Some(size) = first.size() {
            lemma_digit_count_u64(size);
        }
        if let Some(size) = second.size() {
            lemma_digit_count_u64(size);
        }
        let one_way = self.applied(first).applied(second);
        let other_way = self.applied(second).applied(first);
        assert(one_way.total_size == other_way.total_size);
        assert(one_way.total_lines == other_way.total_lines);
        assert(one_way.max_size == other_way.max_size);
        assert(one_way.max_size_digits == other_way.max_size_digits);
        assert(one_way.max_name_len == other_way.max_name_len);
        assert(one_way.dir_count == other_way.dir_count);
        assert(one_way.file_count == other_way.file_count);
        assert(one_way.unknown_count == other_way.unknown_count);
    }

    /// An entry of a run can as well be applied last.
    pub proof fn lemma_apply_last(self, entries: Seq<Entry>, j: int)
        requires
            0 <= j < entries.len(),
            self.can_apply_all(entries),
        ensures
            self.can_apply_all(entries.remove(j)),
            self.applied_all(entries.remove(j)).can_apply(entries[j]),
            self.applied_all(entries.remove(j)).applied(entries[j]) == self.applied_all(entries),
        decreases entries.len(),
    {
        let front = entries.drop_last();
        let last = entries.last();
        if j == entries.len() - 1 {
            assert(entries.remove(j) =~= front);
        } else {
            self.lemma_apply_last(front, j);
            let rest = front.remove(j);
            assert(entries.remove(j) =~= rest.push(last));
            assert(rest.push(last).drop_last() =~= rest);
            self.applied_all(rest).lemma_apply_commutes(entries[j], last);
        }
    }

    /// The totals do not depend on the order in which the entries arrive: two
    /// runs of the same entries, each as often in one as in the other, end on
    /// the same totals.
    pub proof fn lemma_order_independent(self, first: Seq<Entry>, second: Seq<Entry>)
        requires
            first.to_multiset() == second.to_multiset(),
            self.can_apply_all(first),
        ensures
            self.can_apply_all(second),
            self.applied_all(second) == self.applied_all(first),
        decreases second.len(),
    {
        first.to_multiset_ensures();
        second.to_multiset_ensures();
        if second.len() > 0 {
            let last = second.last();
            let front = second.drop_last();
            assert(second.contains(last));
            assert(second.to_multiset().count(last) > 0);
            assert(first.to_multiset().count(last) > 0);
            assert(first.contains(last));
            let j = choose|j: int| 0 <= j < first.len() && first[j] == last;
            self.lemma_apply_last(first, j);
            assert(front =~= second.remove(second.len() - 1));
            assert(first.remove(j).to_multiset() =~= front.to_multiset());
            self.lemma_order_independent(first.remove(j), front);
        }
    }

    /// Tells whether the totals can take `fse`: whether no sum and no count
    /// would pass what its type holds.
    pub fn fits(&self, fse: &FsEntry) -> (fits: bool)
        ensures
            fits == self.can_apply(fse@),
    {
        let size_fits = match fse.size() {
            Some(size) => self.total_size.checked_add(size).is_some(),
            None => true,
        };
        let lines_fit = match fse.total_lines() {
            Some(lines) => self.total_lines.checked_add(lines).is_some(),
            None => false,
        };
        let count_fits = match fse {
            FsEntry::File { .. } => self.file_count < usize::MAX,
            FsEntry::Dir { .. } => self.dir_count < usize::MAX,
            FsEntry::Unknown { .. } => self.unknown_count < usize::MAX,
        };
        proof {
            fse.lemma_name_fits();
        }
        size_fits && lines_fit && count_fits
    }

    /// Applies one top-level entry to the totals.
    pub fn apply_entry(&mut self, fse: &FsEntry)
        requires
            old(self).can_apply(fse@),
        ensures
            *final(self) == old(self).applied(fse@),
    {
        let name_len = fse.name_str().len();
        if name_len > self.max_name_len {
            self.max_name_len = name_len;
        }
        if let Some(size) = fse.size() {
            self.total_size = self.total_size + size;
            if size > self.max_size {
                self.max_size = size;
            }
            let digits = count_digits(size);
            if digits > self.max_size_digits {
                self.max_size_digits = digits;
            }
        }
        if let Some(lines) = fse.total_lines() {
            self.total_lines = self.total_lines + lines;
        }
        match fse {
            FsEntry::File { .. } => {
                self.file_count = self.file_count + 1;
            },
            FsEntry::Dir { .. } => {
                self.dir_count = self.dir_count + 1;
            },
            FsEntry::Unknown { .. } => {
                self.unknown_count = self.unknown_count + 1;
            },
        }
    }
}

impl Default for ScanStats {
    fn default() -> (stats: Self)
        ensures
            stats == ScanStats::empty(),
    {
        ScanStats {
            total_size: 0,
            total_lines: 0,
            max_size: 0,
            max_size_digits: 0,
            max_name_len: 0,
            dir_count: 0,
            file_count: 0,
            unknown_count: 0,
        }
    }
}

} // verus!
