//! The parts of the chart that are counted out: how long a bar is, how a row
//! is laid out, and which rows show the children of a directory.

use vstd::prelude::*;
use vstd::slice::slice_to_vec;
use vstd::string::{StrSliceExecFns, StringExecFns};
use crate::file_system::entry::{Entry, FsEntry};
use crate::file_system::entry_type::EntryType;
use crate::units::system::UnitSystem;
use crate::utils::sequence::{joined, lemma_joined_take};
use crate::utils::text::{push_repeated, repeated};
use crate::utils::tree::{reached, TreeDepth};

verus! {

/// How many columns an entry is moved in for each level of depth.
pub const INDENT_SPACES: usize = 2;

/// The length of the bar of an entry of `size` bytes in a chart whose largest
/// entry has `max_size`, where `scaled` is the share of the full bar that
/// falls to the entry, rounded: no bar in a chart of empty entries, and at
/// least one mark for an entry that is not empty.
pub open spec fn bar_len(size: u64, max_size: u64, scaled: usize) -> usize {
    let len = if max_size == 0 {
        0
    } else {
        scaled
    };
    if size > 0 && len == 0 {
        1
    } else {
        len
    }
}

/// Tells the length of the bar of an entry: see `bar_len`.
pub fn bar_length(size: u64, max_size: u64, scaled: usize) -> (len: usize)
    ensures
        len == bar_len(size, max_size, scaled),
{
    let len = if max_size == 0 {
        0
    } else {
        scaled
    };
    if size > 0 && len == 0 {
        1
    } else {
        len
    }
}

impl UnitSystem {
    /// The columns that the unit takes behind the number: those of the
    /// longest unit of the system and the blank before it.
    pub open spec fn unit_width(self) -> usize {
        match self {
            UnitSystem::Raw => 0,
            UnitSystem::SI => 3,
            UnitSystem::Binary => 4,
            UnitSystem::Lines => 6,
        }
    }

    /// The columns that the unit takes behind the number.
    pub fn right_align(&self) -> (width: usize)
        ensures
            width == self.unit_width(),
    {
        match self {
            UnitSystem::Raw => 0,
            UnitSystem::SI => 3,
            UnitSystem::Binary => 4,
            UnitSystem::Lines => 6,
        }
    }
}

/// What is missing of `have` to make `want`; nothing where there is enough.
pub open spec fn missing(want: nat, have: nat) -> nat {
    if want > have {
        (want - have) as nat
    } else {
        0
    }
}

/// One row of the chart: the name, the bar in brackets with blanks up to
/// `bar_width` behind it, and the measure with blanks before it up to
/// `size_width` characters.
pub open spec fn row_text(
    name: Seq<char>,
    bar: nat,
    bar_width: nat,
    measure: Seq<char>,
    size_width: nat,
) -> Seq<char> {
    name + "   ["@ + repeated("#"@, bar) + repeated(" "@, missing(bar_width, bar)) + "]   "@
        + repeated(" "@, missing(size_width, measure.len())) + measure + "\n"@
}

/// Lays out one row of the chart. `name` is the name as it is to be shown,
/// filled up to the width of the names; `measure` is the measure as it is to
/// be shown.
pub fn chart_row(name: &str, bar: usize, bar_width: usize, measure: &str, size_width: usize) -> (row:
    String)
    ensures
        row@ == row_text(name@, bar as nat, bar_width as nat, measure@, size_width as nat),
{
    let mut row = String::from_str(name);
    row.append("   [");
    push_repeated(&mut row, "#", bar);
    if bar_width > bar {
        push_repeated(&mut row, " ", bar_width - bar);
    }
    row.append("]   ");
    let measure_len = measure.unicode_len();
    if size_width > measure_len {
        push_repeated(&mut row, " ", size_width - measure_len);
    }
    row.append(measure);
    row.append("\n");
    proof {
        assert(repeated(" "@, 0) =~= Seq::<char>::empty());
        assert(row@ =~= row_text(
            name@,
            bar as nat,
            bar_width as nat,
            measure@,
            size_width as nat,
        ));
    }
    row
}

/// One row of the tree that shows what lies below a directory.
#[derive(Debug, PartialEq, Eq)]
pub struct TreeRow {
    /// How deep below the top-level entry the row stands; its children are 1.
    pub depth: usize,
    /// The row is drawn with a corner, which closes a branch, and not with a
    /// tee.
    pub corner: bool,
    /// The raw name of the entry.
    pub name: Vec<u8>,
    /// The kind of the entry, where it is known.
    pub kind: Option<EntryType>,
}

/// A `TreeRow` as a mathematical value.
pub struct Row {
    pub depth: usize,
    pub corner: bool,
    pub name: Seq<u8>,
    pub kind: Option<EntryType>,
}

impl View for TreeRow {
    type V = Row;

    open spec fn view(&self) -> Row {
        Row { depth: self.depth, corner: self.corner, name: self.name@, kind: self.kind }
    }
}

/// The rows of a list, as mathematical values.
pub open spec fn row_views(rows: Seq<TreeRow>) -> Seq<Row> {
    Seq::new(rows.len(), |i: int| rows[i]@)
}

impl Entry {
    /// The kind of the entry, where it is known.
    pub open spec fn kind(self) -> Option<EntryType> {
        match self {
            Entry::File { .. } => Some(EntryType::File),
            Entry::Dir { .. } => Some(EntryType::Dir),
            Entry::Unknown { .. } => None,
        }
    }

    /// The entry is a directory that was listed.
    pub open spec fn is_listed(self) -> bool {
        self matches Entry::Dir { children: Some(_), .. }
    }

    /// The row for the child at place `i` of a listed directory, at `depth`.
    /// It is drawn with a corner where it is the last child, and where it is
    /// a listed directory above the limit of depth.
    pub open spec fn child_row(self, i: int, limit: TreeDepth, depth: usize) -> Row {
        let children = self->children->0;
        let above_limit = match limit {
            TreeDepth::All => true,
            TreeDepth::Depth(n) => depth < n,
        };
        Row {
            depth,
            corner: i >= children.len() - 1 || (above_limit && children[i].is_listed()),
            name: children[i].name(),
            kind: children[i].kind(),
        }
    }

    /// The rows that show what lies below the entry, its children standing at
    /// `depth`: for each child of a listed directory its own row and then the
    /// rows of what lies below it, one level deeper.
    pub open spec fn rows_below(self, limit: TreeDepth, depth: usize) -> Seq<Row>
        decreases self, 1nat,
    {
        if self.is_listed() {
            joined(self.rows_by_child(limit, depth))
        } else {
            Seq::empty()
        }
    }

    /// For each child of a listed directory, its row and the rows below it.
    pub open spec fn rows_by_child(self, limit: TreeDepth, depth: usize) -> Seq<Seq<Row>>
        decreases self, 0nat,
    {
        match self {
            Entry::Dir { children: Some(children), .. } => Seq::new(
                children.len(),
                |i: int|
                    if 0 <= i < children.len() {
                        seq![self.child_row(i, limit, depth)] + if depth < usize::MAX {
                            children[i].rows_below(limit, (depth + 1) as usize)
                        } else {
                            Seq::empty()
                        }
                    } else {
                        Seq::empty()
                    },
            ),
            _ => Seq::empty(),
        }
    }
}

/// Adds to `rows` the rows that show what lies below `entry`, its children
/// standing at `depth`.
pub fn child_rows(entry: &FsEntry, limit: TreeDepth, depth: usize, rows: &mut Vec<TreeRow>)
    ensures
        row_views(final(rows)@) == row_views(old(rows)@) + entry@.rows_below(limit, depth),
    decreases entry,
{
    let children = match entry {
        FsEntry::Dir { children: Some(children), .. } => children,
        _ => {
            assert(row_views(rows@) =~= row_views(old(rows)@) + entry@.rows_below(limit, depth));
            return ;
        },
    };
    proof {
        entry.lemma_children();
    }
    let ghost wanted = entry@.rows_by_child(limit, depth);
    let ghost before = row_views(rows@);
    let at_limit = reached(depth, limit);
    let mut i: usize = 0;
    proof {
        assert(wanted.take(0) =~= Seq::empty());
        assert(before + joined(wanted.take(0)) =~= before);
    }
    while i < children.len()
        invariant
            0 <= i <= children.len(),
            entry is Dir,
            entry->children == Some(*children),
            entry@.is_listed(),
            entry@->children->0.len() == children.len(),
            forall|j: int|
                0 <= j < children.len() ==> entry@->children->0[j] == (#[trigger] children[j])@,
            wanted == entry@.rows_by_child(limit, depth),
            wanted.len() == children.len(),
            at_limit == !(match limit {
                TreeDepth::All => true,
                TreeDepth::Depth(n) => depth < n,
            }),
            row_views(rows@) == before + joined(wanted.take(i as int)),
        decreases children.len() - i,
    {
        let child = &children[i];
        let listed = match child {
            FsEntry::Dir { children: Some(_), .. } => true,
            _ => false,
        };
        let kind = match child {
            FsEntry::File { .. } => Some(EntryType::File),
            FsEntry::Dir { .. } => Some(EntryType::Dir),
            FsEntry::Unknown { .. } => None,
        };
        let row = TreeRow {
            depth,
            corner: i >= children.len() - 1 || (!at_limit && listed),
            name: slice_to_vec(child.name().as_slice()),
            kind,
        };
        proof {
            lemma_joined_take(wanted, i as int);
            assert(row@ == entry@.child_row(i as int, limit, depth));
            assert(row_views(rows@.push(row)) =~= row_views(rows@).push(row@));
        }
        rows.push(row);
        let ghost with_row = row_views(rows@);
        if depth < usize::MAX {
            child_rows(child, limit, depth + 1, rows);
        }
        proof {
            assert(row_views(rows@) =~= before + joined(wanted.take(i + 1)));
        }
        i = i + 1;
    }
    proof {
        assert(wanted.take(i as int) =~= wanted);
    }
}

/// The line that shows one row of the tree: two blanks for each level of
/// depth, a corner or a tee, and the name.
pub open spec fn tree_row_text(depth: nat, corner: bool, name: Seq<char>) -> Seq<char> {
    repeated("  "@, depth) + if corner {
        "\u{2514} "@
    } else {
        "\u{251c} "@
    } + name + "\n"@
}

/// Writes one row of the tree. `name` is the name as it is to be shown.
pub fn tree_row(depth: usize, corner: bool, name: &str) -> (row: String)
    ensures
        row@ == tree_row_text(depth as nat, corner, name@),
{
    let mut row = String::new();
    push_repeated(&mut row, "  ", depth);
    if corner {
        row.append("\u{2514} ");
    } else {
        row.append("\u{251c} ");
    }
    row.append(name);
    row.append("\n");
    proof {
        assert(row@ =~= tree_row_text(depth as nat, corner, name@));
    }
    row
}

} // verus!
