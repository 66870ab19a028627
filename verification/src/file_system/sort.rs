//! The order in which entries are shown.
//!
//! Entries are ordered by name without regard to case, by size with the
//! largest first, or by kind with directories before files before the rest;
//! each order can be turned round. Entries that the order does not tell
//! apart stay in the order in which they came.

use core::cmp::Ordering;
use vstd::prelude::*;
use vstd::utf8::encode_utf8;
use crate::config::SortBy;
use crate::file_system::entry::{display_name, views, Entry, FsEntry};

verus! {

/// The lower-case form of a text, as `str::to_lowercase` gives it.
pub uninterp spec fn lowercased(text: Seq<char>) -> Seq<char>;

/// Turns `text` into lower case with `str::to_lowercase`. The result is the
/// lower-case form of the text, which depends on nothing but the text.
#[verifier::external_body]
fn lowercase_of(text: &str) -> (lower: String)
    ensures
        lower@ == lowercased(text@),
{
    text.to_lowercase()
}

/// The order of two numbers: negative where `left` is less, 0 where they are
/// equal, positive where `left` is more.
pub open spec fn number_order(left: int, right: int) -> int {
    if left < right {
        -1
    } else if left == right {
        0
    } else {
        1
    }
}

/// The order of two byte sequences as in a dictionary: by the first byte in
/// which they differ, and a sequence before each one that it begins.
pub open spec fn byte_order(left: Seq<u8>, right: Seq<u8>) -> int
    decreases left.len(),
{
    if left.len() == 0 {
        if right.len() == 0 {
            0
        } else {
            -1
        }
    } else if right.len() == 0 {
        1
    } else if left[0] != right[0] {
        number_order(left[0] as int, right[0] as int)
    } else {
        byte_order(left.drop_first(), right.drop_first())
    }
}

/// The bytes by which an entry is ordered by name: those of its shown name in
/// lower case.
pub open spec fn name_key(entry: Entry) -> Seq<u8> {
    encode_utf8(lowercased(display_name(entry.name())))
}

/// The number by which an entry is ordered by size: more for a larger size,
/// and least for a size that is not known.
pub open spec fn size_rank(entry: Entry) -> int {
    match entry.size() {
        Some(size) => size + 1,
        None => 0,
    }
}

/// The number by which an entry is ordered by kind.
pub open spec fn type_rank(entry: Entry) -> int {
    match entry {
        Entry::Dir { .. } => 0,
        Entry::File { .. } => 1,
        Entry::Unknown { .. } => 2,
    }
}

/// Where `left` stands to `right` in the order `sort_by`, turned round where
/// `reverse` is set: negative where it stands before, positive where it
/// stands after, and 0 where the order does not tell them apart. By size the
/// larger entry stands first.
pub open spec fn compared(left: Entry, right: Entry, sort_by: SortBy, reverse: bool) -> int {
    let order = match sort_by {
        SortBy::Name => byte_order(name_key(left), name_key(right)),
        SortBy::Size => number_order(size_rank(right), size_rank(left)),
        SortBy::Type => number_order(type_rank(left), type_rank(right)),
    };
    if reverse {
        -order
    } else {
        order
    }
}

/// Exchanging two byte sequences turns their order round.
pub proof fn lemma_byte_order_dual(left: Seq<u8>, right: Seq<u8>)
    ensures
        byte_order(right, left) == -byte_order(left, right),
        -1 <= byte_order(left, right) <= 1,
    decreases left.len(),
{
    if left.len() > 0 && right.len() > 0 && left[0] == right[0] {
        lemma_byte_order_dual(left.drop_first(), right.drop_first());
    }
}

/// Only equal byte sequences are equal in order.
pub proof fn lemma_byte_order_equal(left: Seq<u8>, right: Seq<u8>)
    ensures
        byte_order(left, right) == 0 <==> left == right,
    decreases left.len(),
{
    if left.len() > 0 && right.len() > 0 && left[0] == right[0] {
        lemma_byte_order_equal(left.drop_first(), right.drop_first());
        if left.drop_first() == right.drop_first() {
            assert(left =~= seq![left[0]] + left.drop_first());
            assert(right =~= seq![right[0]] + right.drop_first());
        }
    } else if left.len() == 0 && right.len() == 0 {
        assert(left =~= right);
    }
}

/// The order of byte sequences is transitive.
pub proof fn lemma_byte_order_transitive(first: Seq<u8>, second: Seq<u8>, third: Seq<u8>)
    requires
        byte_order(first, second) <= 0,
        byte_order(second, third) <= 0,
    ensures
        byte_order(first, third) <= 0,
        byte_order(first, third) == 0 ==> byte_order(first, second) == 0 && byte_order(
            second,
            third,
        ) == 0,
    decreases first.len(),
{
    if first.len() > 0 && second.len() > 0 && third.len() > 0 {
        if first[0] == second[0] && second[0] == third[0] {
            lemma_byte_order_transitive(
                first.drop_first(),
                second.drop_first(),
                third.drop_first(),
            );
        }
    }
}

/// Exchanging two entries turns their order round: of two entries, either one
/// is before the other or neither is.
pub proof fn lemma_compared_dual(left: Entry, right: Entry, sort_by: SortBy, reverse: bool)
    ensures
        compared(right, left, sort_by, reverse) == -compared(left, right, sort_by, reverse),
{
    lemma_byte_order_dual(name_key(left), name_key(right));
}

/// The order of entries is transitive, and so is being equal in it.
pub proof fn lemma_compared_transitive(
    first: Entry,
    second: Entry,
    third: Entry,
    sort_by: SortBy,
    reverse: bool,
)
    requires
        compared(first, second, sort_by, reverse) <= 0,
        compared(second, third, sort_by, reverse) <= 0,
    ensures
        compared(first, third, sort_by, reverse) <= 0,
        compared(first, third, sort_by, reverse) == 0 <==> compared(
            first,
            second,
            sort_by,
            reverse,
        ) == 0 && compared(second, third, sort_by, reverse) == 0,
{
    let (a, b, c) = (name_key(first), name_key(second), name_key(third));
    lemma_byte_order_dual(a, b);
    lemma_byte_order_dual(b, c);
    lemma_byte_order_dual(a, c);
    lemma_byte_order_equal(a, b);
    lemma_byte_order_equal(b, c);
    lemma_byte_order_equal(a, c);
    if sort_by == SortBy::Name {
        if reverse {
            lemma_byte_order_transitive(c, b, a);
        } else {
            lemma_byte_order_transitive(a, b, c);
        }
    }
}

/// Orders two byte strings as in a dictionary. The result is negative, 0 or
/// positive as `left` stands before `right`, equals it or stands after it.
pub fn compare_bytes(left: &[u8], right: &[u8]) -> (order: i8)
    ensures
        order == byte_order(left@, right@),
{
    let mut i: usize = 0;
    proof {
        assert(left@.skip(0) =~= left@);
        assert(right@.skip(0) =~= right@);
    }
    while i < left.len() && i < right.len()
        invariant
            i <= left.len(),
            i <= right.len(),
            byte_order(left@, right@) == byte_order(left@.skip(i as int), right@.skip(i as int)),
        decreases left.len() - i,
    {
        proof {
            assert(left@.skip(i as int).drop_first() =~= left@.skip(i + 1));
            assert(right@.skip(i as int).drop_first() =~= right@.skip(i + 1));
        }
        if left[i] < right[i] {
            return -1;
        }
        if left[i] > right[i] {
            return 1;
        }
        i = i + 1;
    }
    if i < right.len() {
        -1
    } else if i < left.len() {
        1
    } else {
        0
    }
}

fn order_of_numbers(left: u64, right: u64) -> (order: i8)
    ensures
        order == number_order(left as int, right as int),
{
    if left < right {
        -1
    } else if left == right {
        0
    } else {
        1
    }
}

fn rank_of_type(entry: &FsEntry) -> (rank: u64)
    ensures
        rank == type_rank(entry@),
{
    match entry {
        FsEntry::Dir { .. } => 0,
        FsEntry::File { .. } => 1,
        FsEntry::Unknown { .. } => 2,
    }
}

/// Where `left` stands to `right`, as a number: see `compared`.
pub fn entry_order(left: &FsEntry, right: &FsEntry, sort_by: &SortBy, reverse: bool) -> (order: i8)
    ensures
        order == compared(left@, right@, *sort_by, reverse),
{
    let order: i8 = match sort_by {
        SortBy::Name => {
            let lower_left = lowercase_of(left.name_str());
            let lower_right = lowercase_of(right.name_str());
            compare_bytes(lower_left.as_str().as_bytes(), lower_right.as_str().as_bytes())
        },
        SortBy::Size => match (right.size(), left.size()) {
            (Some(of_right), Some(of_left)) => order_of_numbers(of_right, of_left),
            (Some(_), None) => 1,
            (None, Some(_)) => -1,
            (None, None) => 0,
        },
        SortBy::Type => order_of_numbers(rank_of_type(left), rank_of_type(right)),
    };
    proof {
        lemma_byte_order_dual(name_key(left@), name_key(right@));
    }
    if reverse {
        -order
    } else {
        order
    }
}

/// The `Ordering` that a signed number stands for.
pub open spec fn ordering_of(order: int) -> Ordering {
    if order < 0 {
        Ordering::Less
    } else if order == 0 {
        Ordering::Equal
    } else {
        Ordering::Greater
    }
}

/// Tells where `left` stands to `right` in the order `sort_by`, turned round
/// where `reverse` is set.
pub fn compare_entries(left: &FsEntry, right: &FsEntry, sort_by: &SortBy, reverse: bool) -> (order:
    Ordering)
    ensures
        order == ordering_of(compared(left@, right@, *sort_by, reverse)),
{
    let order = entry_order(left, right, sort_by, reverse);
    if order < 0 {
        Ordering::Less
    } else if order == 0 {
        Ordering::Equal
    } else {
        Ordering::Greater
    }
}

/// `after` holds the entries of `before` in the order `sort_by`, and `from`
/// and `to` tell where each came from and went to: the entry at place `k` of
/// `after` stood at place `from[k]` of `before`, and the one at place `i` of
/// `before` stands at place `to[i]` of `after`. No entry stands before one
/// that the order puts before it, and entries that the order does not tell
/// apart stand as they stood in `before`.
pub open spec fn sorts_stably(
    before: Seq<Entry>,
    after: Seq<Entry>,
    from: Seq<int>,
    to: Seq<int>,
    sort_by: SortBy,
    reverse: bool,
) -> bool {
    &&& after.len() == before.len()
    &&& from.len() == before.len()
    &&& to.len() == before.len()
    &&& forall|k: int|
        0 <= k < from.len() ==> 0 <= #[trigger] from[k] < before.len() && to[from[k]] == k
            && after[k] == before[from[k]]
    &&& forall|i: int|
        0 <= i < to.len() ==> 0 <= #[trigger] to[i] < before.len() && from[to[i]] == i
    &&& forall|k: int, l: int|
        0 <= k < l < after.len() ==> #[trigger] compared(after[k], after[l], sort_by, reverse)
            <= 0
    &&& forall|k: int, l: int|
        0 <= k < l < after.len() && #[trigger] compared(after[k], after[l], sort_by, reverse)
            == 0 ==> from[k] < from[l]
}

/// `after` is `before` sorted in the order `sort_by`, with the entries that
/// the order does not tell apart left as they stood.
pub open spec fn is_stable_sort(
    before: Seq<Entry>,
    after: Seq<Entry>,
    sort_by: SortBy,
    reverse: bool,
) -> bool {
    exists|from: Seq<int>, to: Seq<int>| sorts_stably(before, after, from, to, sort_by, reverse)
}

proof fn lemma_same_origins(
    before: Seq<Entry>,
    one: Seq<Entry>,
    from_one: Seq<int>,
    to_one: Seq<int>,
    other: Seq<Entry>,
    from_other: Seq<int>,
    to_other: Seq<int>,
    sort_by: SortBy,
    reverse: bool,
    upto: int,
)
    requires
        sorts_stably(before, one, from_one, to_one, sort_by, reverse),
        sorts_stably(before, other, from_other, to_other, sort_by, reverse),
        0 <= upto <= before.len(),
    ensures
        forall|k: int| 0 <= k < upto ==> from_one[k] == from_other[k],
    decreases upto,
{
    if upto > 0 {
        lemma_same_origins(
            before,
            one,
            from_one,
            to_one,
            other,
            from_other,
            to_other,
            sort_by,
            reverse,
            upto - 1,
        );
        let k = upto - 1;
        let i = from_one[k];
        let j = from_other[k];
        if i != j {
            let went = to_other[i];
            let came = to_one[j];
            assert(from_other[went] == i);
            assert(from_one[came] == j);
            assert(went > k) by {
                if went < k {
                    assert(from_one[went] == from_other[went]);
                    assert(to_one[from_one[went]] == went);
                }
            }
            assert(came > k) by {
                if came < k {
                    assert(from_one[came] == from_other[came]);
                    assert(to_other[from_other[came]] == came);
                }
            }
            assert(one[k] == before[i] && one[came] == before[j]);
            assert(other[k] == before[j] && other[went] == before[i]);
            let forth = compared(one[k], one[came], sort_by, reverse);
            let back = compared(other[k], other[went], sort_by, reverse);
            lemma_compared_dual(before[i], before[j], sort_by, reverse);
            assert(forth <= 0);
            assert(back <= 0);
            assert(forth == 0 && back == 0);
            assert(from_one[k] < from_one[came]);
            assert(from_other[k] < from_other[went]);
        }
    }
}

/// There is but one way to sort a list in a given order so that the entries
/// which the order does not tell apart stay as they stood.
pub proof fn lemma_stable_sort_unique(
    before: Seq<Entry>,
    one: Seq<Entry>,
    other: Seq<Entry>,
    sort_by: SortBy,
    reverse: bool,
)
    requires
        is_stable_sort(before, one, sort_by, reverse),
        is_stable_sort(before, other, sort_by, reverse),
    ensures
        one == other,
{
    let (from_one, to_one) = choose|from: Seq<int>, to: Seq<int>|
        sorts_stably(before, one, from, to, sort_by, reverse);
    let (from_other, to_other) = choose|from: Seq<int>, to: Seq<int>|
        sorts_stably(before, other, from, to, sort_by, reverse);
    lemma_same_origins(
        before,
        one,
        from_one,
        to_one,
        other,
        from_other,
        to_other,
        sort_by,
        reverse,
        before.len() as int,
    );
    assert forall|k: int| 0 <= k < one.len() implies one[k] == other[k] by {
        assert(one[k] == before[from_one[k]]);
        assert(other[k] == before[from_other[k]]);
    }
    assert(one =~= other);
}

/// Sorts with `slice::sort_by`, which is given `compare_entries` as its
/// order. That sort is stable: its result holds the same entries, none
/// before one that the order puts before it, and those that the order does
/// not tell apart as they stood. It asks for a total order, which
/// `lemma_compared_dual` and `lemma_compared_transitive` show `compared` to
/// be.
#[verifier::external_body]
fn stable_sort(entries: &mut Vec<FsEntry>, sort_by: &SortBy, reverse: bool)
    ensures
        is_stable_sort(views(old(entries)@), views(final(entries)@), *sort_by, reverse),
{
    entries.sort_by(|left, right| compare_entries(left, right, sort_by, reverse));
}

/// Sorts `entries` in the order `sort_by`, turned round where `reverse` is
/// set. Entries that the order does not tell apart stay as they stood.
pub fn sort_entries(entries: &mut Vec<FsEntry>, sort_by: &SortBy, reverse: bool)
    ensures
        is_stable_sort(views(old(entries)@), views(final(entries)@), *sort_by, reverse),
        final(entries)@.len() == old(entries)@.len(),
{
    stable_sort(entries, sort_by, reverse);
}

} // verus!
