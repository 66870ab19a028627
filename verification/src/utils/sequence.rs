//! Sums, selections and concatenations of sequences.

use vstd::prelude::*;

verus! {

/// Sum of a sequence of numbers.
pub open spec fn total(values: Seq<nat>) -> nat
    decreases values.len(),
{
    if values.len() == 0 {
        0
    } else {
        total(values.drop_last()) + values.last()
    }
}

/// A number more at the end adds to the sum.
pub proof fn lemma_total_push(values: Seq<nat>, value: nat)
    ensures
        total(values.push(value)) == total(values) + value,
{
    assert(values.push(value).drop_last() =~= values);
}

/// The sum of the first `i + 1` numbers is that of the first `i` and the next.
pub proof fn lemma_total_take(values: Seq<nat>, i: int)
    requires
        0 <= i < values.len(),
    ensures
        total(values.take(i + 1)) == total(values.take(i)) + values[i],
{
    assert(values.take(i + 1).drop_last() =~= values.take(i));
}

/// The first numbers add up to no more than all of them.
pub proof fn lemma_total_prefix(values: Seq<nat>, i: int)
    requires
        0 <= i <= values.len(),
    ensures
        total(values.take(i)) <= total(values),
    decreases values.len() - i,
{
    if i == values.len() {
        assert(values.take(i) =~= values);
    } else {
        lemma_total_take(values, i);
        lemma_total_prefix(values, i + 1);
    }
}

/// The values of `items` that are there, in order.
pub open spec fn present<T>(items: Seq<Option<T>>) -> Seq<T>
    decreases items.len(),
{
    if items.len() == 0 {
        Seq::empty()
    } else {
        match items.last() {
            Some(item) => present(items.drop_last()).push(item),
            None => present(items.drop_last()),
        }
    }
}

/// The sequences of `parts`, one after the other.
pub open spec fn joined<T>(parts: Seq<Seq<T>>) -> Seq<T>
    decreases parts.len(),
{
    if parts.len() == 0 {
        Seq::empty()
    } else {
        joined(parts.drop_last()) + parts.last()
    }
}

/// The present values among the first `i + 1` are those among the first `i`
/// and the next, if it is there.
pub proof fn lemma_present_take<T>(items: Seq<Option<T>>, i: int)
    requires
        0 <= i < items.len(),
    ensures
        present(items.take(i + 1)) == match items[i] {
            Some(item) => present(items.take(i)).push(item),
            None => present(items.take(i)),
        },
{
    assert(items.take(i + 1).drop_last() =~= items.take(i));
}

/// The first `i + 1` parts joined are the first `i` joined and the next.
pub proof fn lemma_joined_take<T>(parts: Seq<Seq<T>>, i: int)
    requires
        0 <= i < parts.len(),
    ensures
        joined(parts.take(i + 1)) == joined(parts.take(i)) + parts[i],
{
    assert(parts.take(i + 1).drop_last() =~= parts.take(i));
}

/// Each value among the present ones stands somewhere in the sequence.
pub proof fn lemma_present_from<T>(items: Seq<Option<T>>, k: int) -> (j: int)
    requires
        0 <= k < present(items).len(),
    ensures
        0 <= j < items.len(),
        items[j] == Some(present(items)[k]),
    decreases items.len(),
{
    let shorter = items.drop_last();
    if items.last() is Some && k == present(shorter).len() {
        items.len() - 1
    } else {
        lemma_present_from(shorter, k)
    }
}

/// Joining two runs of parts joins what each run joins.
pub proof fn lemma_joined_concat<T>(front: Seq<Seq<T>>, back: Seq<Seq<T>>)
    ensures
        joined(front + back) == joined(front) + joined(back),
    decreases back.len(),
{
    if back.len() == 0 {
        assert(front + back =~= front);
        assert(joined(front) + joined(back) =~= joined(front));
    } else {
        lemma_joined_concat(front, back.drop_last());
        assert((front + back).drop_last() =~= front + back.drop_last());
        assert(joined(front + back) =~= joined(front) + joined(back));
    }
}

} // verus!
