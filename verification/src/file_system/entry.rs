//! The entries that a scan produces.

use vstd::prelude::*;
use vstd::string::StringSliceAdditionalSpecFns;
use vstd::utf8::{
    decode_utf8, encode_utf8_decode_utf8, is_ascii_chars, is_ascii_chars_encode_utf8, valid_utf8,
};
use crate::file_system::utf8::decode_utf8_prefix;
use crate::utils::sequence::{lemma_total_prefix, lemma_total_take, total};

verus! {

/// What stands for a name that cannot be shown as text.
pub const UNKNOWN_ENTRY: &'static str = "[Unknown Entry]";

/// The length of `UNKNOWN_ENTRY` in bytes.
pub const UNKNOWN_ENTRY_LEN: usize = 15;

/// One scanned item of the file system, with what lies below it.
///
/// A name is kept as the raw bytes that the file system gave. Only
/// `name_str` replaces a name that is no UTF-8, and only for display.
#[allow(inconsistent_fields)]
#[derive(Debug, PartialEq, Eq)]
pub enum FsEntry {
    /// A regular file. `lines` is there when lines were counted.
    File { name: Vec<u8>, size: u64, lines: Option<u64> },
    /// A directory. `children` is missing when it could not be listed; then
    /// `size` is the directory's own size, else the sum of the children's.
    Dir { name: Vec<u8>, size: u64, children: Option<Vec<FsEntry>> },
    /// An item whose kind could not be found out, or that is neither a file
    /// nor a directory.
    Unknown { name: Vec<u8>, size: Option<u64> },
}

/// An `FsEntry` as a mathematical value.
#[allow(inconsistent_fields)]
pub enum Entry {
    File { name: Seq<u8>, size: u64, lines: Option<u64> },
    Dir { name: Seq<u8>, size: u64, children: Option<Seq<Entry>> },
    Unknown { name: Seq<u8>, size: Option<u64> },
}

impl View for FsEntry {
    type V = Entry;

    open spec fn view(&self) -> Entry
        decreases self, 1nat,
    {
        match self {
            FsEntry::File { name, size, lines } => Entry::File {
                name: name@,
                size: *size,
                lines: *lines,
            },
            FsEntry::Dir { name, size, children } => Entry::Dir {
                name: name@,
                size: *size,
                children: self.child_views(),
            },
            FsEntry::Unknown { name, size } => Entry::Unknown { name: name@, size: *size },
        }
    }
}

impl FsEntry {
    /// The children of a listed directory, as mathematical values.
    pub open spec fn child_views(&self) -> Option<Seq<Entry>>
        decreases self, 0nat,
    {
        match self {
            FsEntry::Dir { children: Some(list), .. } => Some(
                Seq::new(
                    list.len() as nat,
                    |i: int|
                        if 0 <= i < list.len() {
                            list[i]@
                        } else {
                            arbitrary()
                        },
                ),
            ),
            _ => None,
        }
    }
}

/// The text that shows a name: the name itself where it is UTF-8, else the
/// placeholder.
pub open spec fn display_name(name: Seq<u8>) -> Seq<char> {
    if valid_utf8(name) {
        decode_utf8(name)
    } else {
        UNKNOWN_ENTRY@
    }
}

/// The length in bytes of the text that shows a name.
pub open spec fn display_len(name: Seq<u8>) -> nat {
    if valid_utf8(name) {
        name.len()
    } else {
        UNKNOWN_ENTRY_LEN as nat
    }
}

/// The placeholder is plain ASCII of `UNKNOWN_ENTRY_LEN` bytes.
pub proof fn lemma_unknown_entry_len()
    ensures
        UNKNOWN_ENTRY@.len() == UNKNOWN_ENTRY_LEN,
        UNKNOWN_ENTRY.spec_bytes().len() == UNKNOWN_ENTRY_LEN,
{
    reveal_strlit("[Unknown Entry]");
    assert(is_ascii_chars(UNKNOWN_ENTRY@));
    is_ascii_chars_encode_utf8(UNKNOWN_ENTRY@);
}

impl Entry {
    /// The raw name.
    pub open spec fn name(self) -> Seq<u8> {
        match self {
            Entry::File { name, .. } => name,
            Entry::Dir { name, .. } => name,
            Entry::Unknown { name, .. } => name,
        }
    }

    /// The size, where it is known.
    pub open spec fn size(self) -> Option<u64> {
        match self {
            Entry::File { size, .. } => Some(size),
            Entry::Dir { size, .. } => Some(size),
            Entry::Unknown { size, .. } => size,
        }
    }

    /// The line count of a file, where lines were counted.
    pub open spec fn lines(self) -> Option<u64> {
        match self {
            Entry::File { lines, .. } => lines,
            _ => None,
        }
    }

    /// What the entry adds to a sum of sizes: its size, or nothing where the
    /// size is not known.
    pub open spec fn known_size(self) -> nat {
        match self.size() {
            Some(size) => size as nat,
            None => 0,
        }
    }

    /// The lines counted in the entry and below it.
    pub open spec fn line_total(self) -> nat
        decreases self, 1nat,
    {
        match self {
            Entry::File { lines: Some(lines), .. } => lines as nat,
            Entry::Dir { children: Some(_), .. } => total(self.child_lines()),
            _ => 0,
        }
    }

    /// The lines counted in each child of a listed directory and below it.
    pub open spec fn child_lines(self) -> Seq<nat>
        decreases self, 0nat,
    {
        match self {
            Entry::Dir { children: Some(children), .. } => Seq::new(
                children.len(),
                |i: int|
                    if 0 <= i < children.len() {
                        children[i].line_total()
                    } else {
                        0
                    },
            ),
            _ => Seq::empty(),
        }
    }

    /// Every listed directory in the entry and below it has as its size the
    /// sum of the sizes of its children whose size is known.
    pub open spec fn sizes_add_up(self) -> bool
        decreases self,
    {
        match self {
            Entry::Dir { size, children: Some(children), .. } => {
                &&& size == total(child_sizes(children))
                &&& forall|i: int|
                    0 <= i < children.len() ==> (#[trigger] children[i]).sizes_add_up()
            },
            _ => true,
        }
    }
}

/// The entries of a list, as mathematical values.
pub open spec fn views(list: Seq<FsEntry>) -> Seq<Entry> {
    Seq::new(list.len(), |i: int| list[i]@)
}

/// What each of `children` adds to the size of their directory.
pub open spec fn child_sizes(children: Seq<Entry>) -> Seq<nat> {
    Seq::new(children.len(), |i: int| children[i].known_size())
}

impl FsEntry {
    /// The raw name, as the file system gave it.
    pub fn name(&self) -> (name: &Vec<u8>)
        ensures
            name@ == self@.name(),
    {
        match self {
            FsEntry::File { name, .. } => name,
            FsEntry::Dir { name, .. } => name,
            FsEntry::Unknown { name, .. } => name,
        }
    }

    /// The name as text for display: the placeholder where the raw name is
    /// no UTF-8.
    pub fn name_str(&self) -> (text: &str)
        ensures
            text@ == display_name(self@.name()),
            text.spec_bytes().len() == display_len(self@.name()),
    {
        match decode_utf8_prefix(self.name().as_slice()) {
            Ok(text) => {
                proof {
                    encode_utf8_decode_utf8(text@);
                }
                text
            },
            Err(_) => {
                proof {
                    lemma_unknown_entry_len();
                }
                UNKNOWN_ENTRY
            },
        }
    }

    /// The size, where it is known.
    pub fn size(&self) -> (size: Option<u64>)
        ensures
            size == self@.size(),
    {
        match self {
            FsEntry::File { size, .. } => Some(*size),
            FsEntry::Dir { size, .. } => Some(*size),
            FsEntry::Unknown { size, .. } => *size,
        }
    }

    /// The line count of a file, where lines were counted.
    pub fn lines(&self) -> (lines: Option<u64>)
        ensures
            lines == self@.lines(),
    {
        match self {
            FsEntry::File { lines, .. } => *lines,
            _ => None,
        }
    }

    /// A name is no longer than a `usize` counts.
    pub proof fn lemma_name_fits(&self)
        ensures
            self@.name().len() <= usize::MAX,
    {
        match self {
            FsEntry::File { name, .. } => {
                assert(name@.len() == name.len());
            },
            FsEntry::Dir { name, .. } => {
                assert(name@.len() == name.len());
            },
            FsEntry::Unknown { name, .. } => {
                assert(name@.len() == name.len());
            },
        }
    }

    /// The children of a listed directory are seen one by one.
    pub proof fn lemma_children(&self)
        requires
            self is Dir,
            self->children is Some,
        ensures
            self@ is Dir,
            self@->children is Some,
            self@->children->0.len() == self->children->0.len(),
            forall|i: int|
                0 <= i < self->children->0.len() ==> self@->children->0[i] == (
                #[trigger] self->children->0[i])@,
            self@.child_lines().len() == self->children->0.len(),
            forall|i: int|
                0 <= i < self->children->0.len() ==> self@.child_lines()[i] == (
                #[trigger] self->children->0[i])@.line_total(),
    {
        reveal_with_fuel(FsEntry::child_views, 2);
        reveal_with_fuel(Entry::line_total, 2);
        reveal_with_fuel(Entry::child_lines, 2);
        assert(self@->children == self.child_views());
    }

    /// The lines counted in the entry and below it, or nothing where they
    /// add up to more than a `u64` holds.
    pub fn total_lines(&self) -> (sum: Option<u64>)
        ensures
            match sum {
                Some(lines) => lines == self@.line_total(),
                None => self@.line_total() > u64::MAX,
            },
        decreases self,
    {
        match self {
            FsEntry::File { lines: Some(lines), .. } => Some(*lines),
            FsEntry::Dir { children: Some(children), .. } => {
                let ghost counts = self@.child_lines();
                let mut sum: u64 = 0;
                let mut i: usize = 0;
                proof {
                    self.lemma_children();
                    assert(counts.take(0) =~= Seq::empty());
                }
                while i < children.len()
                    invariant
                        0 <= i <= children.len(),
                        self matches FsEntry::Dir { children: Some(list), .. } && list == children,
                        counts == self@.child_lines(),
                        counts.len() == children.len(),
                        forall|j: int|
                            0 <= j < children.len() ==> counts[j] == (#[trigger] children[j]@).line_total(),
                        sum == total(counts.take(i as int)),
                    decreases children.len() - i,
                {
                    proof {
                        lemma_total_take(counts, i as int);
                        lemma_total_prefix(counts, i + 1);
                    }
                    let below = match children[i].total_lines() {
                        Some(below) => below,
                        None => {
                            return None;
                        },
                    };
                    sum = match sum.checked_add(below) {
                        Some(sum) => sum,
                        None => {
                            return None;
                        },
                    };
                    i = i + 1;
                }
                proof {
                    assert(counts.take(i as int) =~= counts);
                }
                Some(sum)
            },
            _ => Some(0),
        }
    }
}

} // verus!
