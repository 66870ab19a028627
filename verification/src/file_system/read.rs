//! Reading one top-level entry with everything below it.
//!
//! The file system is asked first, and what it said stands in a `Probe`.
//! `read_entry_recursive` makes the entry out of it: it tells files from
//! directories, adds up sizes, and records every failure without stopping.

use vstd::prelude::*;
use vstd::utf8::valid_utf8;
use vstd::slice::slice_to_vec;
use crate::file_system::entry::{child_sizes, views, Entry, FsEntry};
use crate::file_system::entry_type::{EntryType, Metadata};
use crate::file_system::error::{failures, lemma_failures_push, ErrorKind, Failure, ScanError};
use crate::file_system::utf8::decode_utf8_prefix;
use crate::utils::sequence::{
    joined, lemma_joined_take, lemma_present_from, lemma_present_take, lemma_total_prefix,
    lemma_total_push, lemma_total_take, present, total,
};

verus! {

/// What the file system said of one item and of what lies below it.
#[derive(Debug, PartialEq, Eq)]
pub struct Probe {
    /// The raw name of the item.
    pub name: Vec<u8>,
    /// The metadata, or why it could not be read.
    pub metadata: Result<Metadata, String>,
    /// For a file, the count of its lines, or why it could not be read;
    /// nothing where nobody counted.
    pub lines: Option<Result<u64, String>>,
    /// For a directory, the items found in it, each read or failed, or why it
    /// could not be listed; nothing where nobody listed it.
    pub listing: Option<Result<Vec<Result<Probe, String>>, String>>,
}

impl Probe {
    /// The kind of the item, where its metadata tells one.
    pub open spec fn entry_type(self) -> Option<EntryType> {
        match self.metadata {
            Ok(metadata) => EntryType::of(metadata),
            Err(_) => None,
        }
    }

    /// The size that the metadata gives; 0 without metadata.
    pub open spec fn own_size(self) -> u64 {
        match self.metadata {
            Ok(metadata) => metadata.len,
            Err(_) => 0,
        }
    }

    /// The items of the listing, where the item is a directory that was
    /// listed.
    pub open spec fn items(self) -> Option<Seq<Result<Probe, String>>> {
        match self.listing {
            Some(Ok(items)) if self.entry_type() == Some(EntryType::Dir) => Some(items@),
            _ => None,
        }
    }

    /// The bytes that the item and what lies below it add to a sum of sizes:
    /// those of a file, the own size of a directory that was not listed,
    /// and for a listed directory what its items add.
    pub open spec fn size_sum(self) -> nat
        decreases self, 1nat,
    {
        if self.items() is Some {
            total(self.listed_sizes())
        } else if self.entry_type() is Some {
            self.own_size() as nat
        } else {
            0
        }
    }

    /// What each item of a listed directory adds to its size: nothing where
    /// the item could not be read.
    pub open spec fn listed_sizes(self) -> Seq<nat>
        decreases self, 0nat,
    {
        match self.listing {
            Some(Ok(items)) => Seq::new(
                items.len() as nat,
                |i: int|
                    if 0 <= i < items.len() {
                        match items[i] {
                            Ok(item) => item.size_sum(),
                            Err(_) => 0,
                        }
                    } else {
                        0
                    },
            ),
            _ => Seq::empty(),
        }
    }

    /// The sizes in the item and below it add up to no more than a `u64`
    /// holds.
    pub open spec fn fits(self) -> bool {
        self.size_sum() <= u64::MAX
    }

    /// The entry that a scan makes of the item.
    ///
    /// An item without metadata, or one that is neither a file nor a
    /// directory, is `Unknown` without a size. A file has its size, and its
    /// line count where lines are counted and the file could be read. A
    /// directory that was not listed has no children and its own size. A
    /// listed directory has one child for each item that could be read, in
    /// order, and the sum of their sizes.
    pub open spec fn scanned(self, count_lines: bool) -> Entry
        decreases self, 1nat,
    {
        match self.entry_type() {
            None => Entry::Unknown { name: self.name@, size: None },
            Some(EntryType::File) => Entry::File {
                name: self.name@,
                size: self.own_size(),
                lines: match self.lines {
                    Some(Ok(count)) if count_lines => Some(count),
                    _ => None,
                },
            },
            Some(EntryType::Dir) => if self.items() is Some {
                let children = present(self.listed_entries(count_lines));
                Entry::Dir {
                    name: self.name@,
                    size: total(child_sizes(children)) as u64,
                    children: Some(children),
                }
            } else {
                Entry::Dir { name: self.name@, size: self.own_size(), children: None }
            },
        }
    }

    /// The items of a listed directory, each as the entry that a scan makes of
    /// it, or nothing where the item could not be read.
    pub open spec fn listed_entries(self, count_lines: bool) -> Seq<Option<Entry>>
        decreases self, 0nat,
    {
        match self.listing {
            Some(Ok(items)) => Seq::new(
                items.len() as nat,
                |i: int|
                    if 0 <= i < items.len() {
                        match items[i] {
                            Ok(item) => Some(item.scanned(count_lines)),
                            Err(_) => None,
                        }
                    } else {
                        None
                    },
            ),
            _ => Seq::empty(),
        }
    }

    /// The failures that a scan records at the item itself: metadata that
    /// could not be read, a file whose lines could not be counted, a
    /// directory that could not be listed.
    pub open spec fn own_failures(self, count_lines: bool) -> Seq<Failure> {
        match self.metadata {
            Err(cause) => seq![
                Failure { kind: ErrorKind::Metadata, name: self.name@, cause: cause@ },
            ],
            Ok(_) => match (self.entry_type(), self.lines, self.listing) {
                (Some(EntryType::File), Some(Err(cause)), _) if count_lines => seq![
                    Failure { kind: ErrorKind::Lines, name: self.name@, cause: cause@ },
                ],
                (Some(EntryType::Dir), _, Some(Err(cause))) => seq![
                    Failure { kind: ErrorKind::ReadDir, name: self.name@, cause: cause@ },
                ],
                _ => Seq::empty(),
            },
        }
    }

    /// The failures that a scan of the item records, in the order in which it
    /// meets them: first a name that cannot be shown, then what failed at the
    /// item itself, then, for a listed directory, what failed at each item of
    /// the listing and below it.
    pub open spec fn scan_failures(self, count_lines: bool) -> Seq<Failure>
        decreases self, 1nat,
    {
        name_failures(self.name@) + self.own_failures(count_lines) + if self.items() is Some {
            joined(self.listed_failures(count_lines))
        } else {
            Seq::empty()
        }
    }

    /// The failures at each item of a listed directory and below it. An item
    /// that could not be read is one failure, under the directory's name.
    pub open spec fn listed_failures(self, count_lines: bool) -> Seq<Seq<Failure>>
        decreases self, 0nat,
    {
        match self.listing {
            Some(Ok(items)) => Seq::new(
                items.len() as nat,
                |i: int|
                    if 0 <= i < items.len() {
                        match items[i] {
                            Ok(item) => item.scan_failures(count_lines),
                            Err(cause) => seq![
                                Failure {
                                    kind: ErrorKind::DirEntry,
                                    name: self.name@,
                                    cause: cause@,
                                },
                            ],
                        }
                    } else {
                        Seq::empty()
                    },
            ),
            _ => Seq::empty(),
        }
    }
}

/// The failure that a scan records for a name that cannot be shown.
pub open spec fn name_failures(name: Seq<u8>) -> Seq<Failure> {
    if valid_utf8(name) {
        Seq::empty()
    } else {
        seq![Failure { kind: ErrorKind::Name, name, cause: Seq::empty() }]
    }
}

/// Where each entry that is present has the size that `sizes` gives for its
/// place, and `sizes` gives nothing for an empty place, the present entries
/// have the total of `sizes`.
proof fn lemma_present_sizes(entries: Seq<Option<Entry>>, sizes: Seq<nat>, n: int)
    requires
        entries.len() == sizes.len(),
        0 <= n <= entries.len(),
        forall|i: int|
            0 <= i < n ==> sizes[i] == match #[trigger] entries[i] {
                Some(entry) => entry.known_size(),
                None => 0,
            },
    ensures
        total(child_sizes(present(entries.take(n)))) == total(sizes.take(n)),
    decreases n,
{
    if n == 0 {
        assert(entries.take(0) =~= Seq::empty());
        assert(sizes.take(0) =~= Seq::empty());
        assert(child_sizes(Seq::empty()) =~= Seq::empty());
    } else {
        lemma_present_sizes(entries, sizes, n - 1);
        lemma_present_take(entries, n - 1);
        lemma_total_take(sizes, n - 1);
        let before = present(entries.take(n - 1));
        match entries[n - 1] {
            Some(entry) => {
                assert(child_sizes(before.push(entry)) =~= child_sizes(before).push(
                    entry.known_size(),
                ));
                lemma_total_push(child_sizes(before), entry.known_size());
            },
            None => {},
        }
    }
}

impl Probe {
    /// Each item of a listing adds no more than the whole directory.
    pub proof fn lemma_item_fits(self, i: int)
        requires
            self.items() is Some,
            0 <= i < self.items()->0.len(),
        ensures
            self.listed_sizes()[i] <= self.size_sum(),
            total(self.listed_sizes().take(i)) + self.listed_sizes()[i] <= self.size_sum(),
            self.items()->0[i] matches Ok(item) ==> item.size_sum() <= self.size_sum(),
    {
        lemma_total_take(self.listed_sizes(), i);
        lemma_total_prefix(self.listed_sizes(), i + 1);
    }

    /// The scan adds sizes up without loss: where the sizes fit, the entry's
    /// size is the sum of the sizes below it, and every listed directory in it
    /// has the sum of the sizes of its children whose size is known.
    pub proof fn lemma_scanned_sizes(self, count_lines: bool)
        requires
            self.fits(),
        ensures
            self.scanned(count_lines).known_size() == self.size_sum(),
            self.scanned(count_lines).sizes_add_up(),
        decreases self,
    {
        if self.items() is Some {
            let items = self.items()->0;
            let entries = self.listed_entries(count_lines);
            let sizes = self.listed_sizes();
            assert forall|i: int| 0 <= i < entries.len() implies sizes[i] == match #[trigger] entries[i] {
                Some(entry) => entry.known_size(),
                None => 0,
            } && (entries[i] matches Some(entry) ==> entry.sizes_add_up()) by {
                self.lemma_item_fits(i);
                match items[i] {
                    Ok(item) => {
                        item.lemma_scanned_sizes(count_lines);
                    },
                    Err(_) => {},
                }
            }
            lemma_present_sizes(entries, sizes, entries.len() as int);
            assert(entries.take(entries.len() as int) =~= entries);
            assert(sizes.take(sizes.len() as int) =~= sizes);
            let children = present(entries);
            assert forall|k: int| 0 <= k < children.len() implies (#[trigger] children[k]).sizes_add_up() by {
                let j = lemma_present_from(entries, k);
            }
        }
    }
}

impl Probe {
    /// The sum of the sizes in the item and below it, or nothing where it is
    /// more than a `u64` holds. An item with such a sum cannot be scanned.
    pub fn checked_size(&self) -> (sum: Option<u64>)
        ensures
            match sum {
                Some(sum) => sum == self.size_sum(),
                None => !self.fits(),
            },
        decreases self,
    {
        let metadata = match &self.metadata {
            Ok(metadata) => metadata,
            Err(_) => {
                return Some(0);
            },
        };
        match EntryType::classify(metadata) {
            None => Some(0),
            Some(EntryType::File) => Some(metadata.len),
            Some(EntryType::Dir) => {
                let items = match &self.listing {
                    Some(Ok(items)) => items,
                    _ => {
                        return Some(metadata.len);
                    },
                };
                let ghost sizes = self.listed_sizes();
                proof {
                    assert(sizes.take(0) =~= Seq::empty());
                }
                let mut sum: u64 = 0;
                let mut i: usize = 0;
                while i < items.len()
                    invariant
                        0 <= i <= items.len(),
                        self.items() == Some(items@),
                        self.listing == Some(Ok::<Vec<Result<Probe, String>>, String>(*items)),
                        sizes == self.listed_sizes(),
                        sum == total(sizes.take(i as int)),
                    decreases items.len() - i,
                {
                    proof {
                        self.lemma_item_fits(i as int);
                        lemma_total_take(sizes, i as int);
                    }
                    if let Ok(item) = &items[i] {
                        let below = match item.checked_size() {
                            Some(below) => below,
                            None => {
                                return None;
                            },
                        };
                        sum = match sum.checked_add(below) {
                            Some(sum) => sum,
                            None => {
                                return None;
                            },
                        };
                    }
                    i = i + 1;
                }
                proof {
                    assert(sizes.take(i as int) =~= sizes);
                }
                Some(sum)
            },
        }
    }
}

/// What stands for a top-level entry whose worker ended abnormally: an entry
/// of unknown kind and size under the entry's name, and the failure to record
/// with it, so that no dispatched entry is lost.
pub fn crashed_entry(name: &Vec<u8>, cause: &String) -> (outcome: (FsEntry, ScanError))
    ensures
        outcome.0@ == (Entry::Unknown { name: name@, size: None }),
        outcome.1@ == (Failure { kind: ErrorKind::Worker, name: name@, cause: cause@ }),
{
    (
        FsEntry::Unknown { name: slice_to_vec(name.as_slice()), size: None },
        ScanError::new(ErrorKind::Worker, name, cause),
    )
}

fn record(errors: &mut Vec<ScanError>, kind: ErrorKind, name: &Vec<u8>, cause: &String)
    ensures
        failures(final(errors)@) == failures(old(errors)@).push(
            Failure { kind, name: name@, cause: cause@ },
        ),
{
    let error = ScanError::new(kind, name, cause);
    proof {
        lemma_failures_push(errors@, error);
    }
    errors.push(error);
}

/// Makes the entry for one item out of what the file system said of it and of
/// everything below it, and records each failure in `errors`. No failure
/// stops the scan: an item that could not be read is left out of its
/// directory's children and of its size, and its failure is recorded.
pub fn read_entry_recursive(entry: &Probe, count_lines: bool, errors: &mut Vec<ScanError>) -> (found: FsEntry)
    requires
        entry.fits(),
    ensures
        found@ == entry.scanned(count_lines),
        found@.sizes_add_up(),
        failures(final(errors)@) == failures(old(errors)@) + entry.scan_failures(count_lines),
    decreases entry,
{
    proof {
        entry.lemma_scanned_sizes(count_lines);
    }
    let name = &entry.name;
    if decode_utf8_prefix(name.as_slice()).is_err() {
        record(errors, ErrorKind::Name, name, &String::new());
    }
    assert(failures(errors@) =~= failures(old(errors)@) + name_failures(entry.name@));
    let metadata = match &entry.metadata {
        Ok(metadata) => metadata,
        Err(cause) => {
            record(errors, ErrorKind::Metadata, name, cause);
            assert(failures(errors@) =~= failures(old(errors)@) + entry.scan_failures(count_lines));
            return FsEntry::Unknown { name: slice_to_vec(name.as_slice()), size: None };
        },
    };
    match EntryType::classify(metadata) {
        None => {
            assert(failures(errors@) =~= failures(old(errors)@) + entry.scan_failures(count_lines));
            FsEntry::Unknown { name: slice_to_vec(name.as_slice()), size: None }
        },
        Some(EntryType::File) => {
            let counted: Option<u64> = if count_lines {
                match &entry.lines {
                    Some(Ok(count)) => Some(*count),
                    Some(Err(cause)) => {
                        record(errors, ErrorKind::Lines, name, cause);
                        None
                    },
                    None => None,
                }
            } else {
                None
            };
            assert(failures(errors@) =~= failures(old(errors)@) + entry.scan_failures(count_lines));
            FsEntry::File { name: slice_to_vec(name.as_slice()), size: metadata.len, lines: counted }
        },
        Some(EntryType::Dir) => {
            let items = match &entry.listing {
                Some(Ok(items)) => items,
                Some(Err(cause)) => {
                    record(errors, ErrorKind::ReadDir, name, cause);
                    assert(failures(errors@) =~= failures(old(errors)@) + entry.scan_failures(
                        count_lines,
                    ));
                    return FsEntry::Dir {
                        name: slice_to_vec(name.as_slice()),
                        size: metadata.len,
                        children: None,
                    };
                },
                None => {
                    assert(failures(errors@) =~= failures(old(errors)@) + entry.scan_failures(
                        count_lines,
                    ));
                    return FsEntry::Dir {
                        name: slice_to_vec(name.as_slice()),
                        size: metadata.len,
                        children: None,
                    };
                },
            };
            let ghost named = failures(errors@);
            let ghost entries = entry.listed_entries(count_lines);
            let ghost sizes = entry.listed_sizes();
            let ghost found = entry.listed_failures(count_lines);
            proof {
                assert(entries.take(0) =~= Seq::empty());
                assert(found.take(0) =~= Seq::empty());
                assert(sizes.take(0) =~= Seq::empty());
                assert(views(Seq::<FsEntry>::empty()) =~= Seq::empty());
                assert(child_sizes(Seq::empty()) =~= Seq::empty());
                assert(named + joined(found.take(0)) =~= named);
            }
            let mut children: Vec<FsEntry> = Vec::new();
            let mut sum: u64 = 0;
            let mut i: usize = 0;
            while i < items.len()
                invariant
                    0 <= i <= items.len(),
                    entry.fits(),
                    entry.items() == Some(items@),
                    entry.listing == Some(Ok::<Vec<Result<Probe, String>>, String>(*items)),
                    entries == entry.listed_entries(count_lines),
                    sizes == entry.listed_sizes(),
                    found == entry.listed_failures(count_lines),
                    views(children@) == present(entries.take(i as int)),
                    sum == total(child_sizes(present(entries.take(i as int)))),
                    sum == total(sizes.take(i as int)),
                    failures(errors@) == named + joined(found.take(i as int)),
                    name@ == entry.name@,
                decreases items.len() - i,
            {
                proof {
                    entry.lemma_item_fits(i as int);
                    lemma_present_take(entries, i as int);
                    lemma_joined_take(found, i as int);
                    lemma_total_take(sizes, i as int);
                }
                match &items[i] {
                    Ok(item) => {
                        proof {
                            item.lemma_scanned_sizes(count_lines);
                        }
                        let child = read_entry_recursive(item, count_lines, errors);
                        proof {
                            let kept = present(entries.take(i as int));
                            assert(child_sizes(kept.push(child@)) =~= child_sizes(kept).push(
                                child@.known_size(),
                            ));
                            lemma_total_push(child_sizes(kept), child@.known_size());
                            assert(views(children@.push(child)) =~= views(children@).push(child@));
                        }
                        if let Some(size) = child.size() {
                            sum = sum + size;
                        }
                        children.push(child);
                    },
                    Err(cause) => {
                        record(errors, ErrorKind::DirEntry, name, cause);
                    },
                }
                proof {
                    assert(failures(errors@) =~= named + joined(found.take(i + 1)));
                }
                i = i + 1;
            }
            proof {
                assert(entries.take(i as int) =~= entries);
                assert(found.take(i as int) =~= found);
                assert(failures(errors@) =~= failures(old(errors)@) + entry.scan_failures(
                    count_lines,
                ));
            }
            let listed = FsEntry::Dir {
                name: slice_to_vec(name.as_slice()),
                size: sum,
                children: Some(children),
            };
            proof {
                assert(listed.child_views()->0 =~= views(children@));
            }
            listed
        },
    }
}

} // verus!
