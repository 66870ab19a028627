//! UTF-8 validity of byte buffers and of their prefixes.

use vstd::prelude::*;
use vstd::string::StringSliceAdditionalSpecFns;
use vstd::utf8::*;

verus! {

/// `k` is the length of the longest prefix of `bytes` that is valid UTF-8.
pub open spec fn is_longest_valid_prefix(bytes: Seq<u8>, k: int) -> bool {
    &&& 0 <= k <= bytes.len()
    &&& valid_utf8(bytes.subrange(0, k))
    &&& forall|j: int| k < j <= bytes.len() ==> !valid_utf8(#[trigger] bytes.subrange(0, j))
}

/// Length of the longest prefix of `bytes` that is valid UTF-8.
pub open spec fn valid_prefix_len(bytes: Seq<u8>) -> nat
    decreases bytes.len(),
{
    if valid_utf8(bytes) {
        bytes.len()
    } else {
        valid_prefix_len(bytes.drop_last())
    }
}

/// `valid_prefix_len` names the longest valid prefix, and nothing else does.
pub proof fn lemma_valid_prefix_len(bytes: Seq<u8>)
    ensures
        is_longest_valid_prefix(bytes, valid_prefix_len(bytes) as int),
        forall|k: int| is_longest_valid_prefix(bytes, k) ==> k == valid_prefix_len(bytes),
    decreases bytes.len(),
{
    let n = bytes.len() as int;
    if valid_utf8(bytes) {
        assert(bytes.subrange(0, n) =~= bytes);
    } else {
        let shorter = bytes.drop_last();
        lemma_valid_prefix_len(shorter);
        let k = valid_prefix_len(shorter) as int;
        assert(bytes.subrange(0, k) =~= shorter.subrange(0, k));
        assert forall|j: int| k < j <= n implies !valid_utf8(#[trigger] bytes.subrange(0, j)) by {
            if j == n {
                assert(bytes.subrange(0, j) =~= bytes);
            } else {
                assert(bytes.subrange(0, j) =~= shorter.subrange(0, j));
            }
        }
    }
    let best = valid_prefix_len(bytes) as int;
    assert forall|k: int| is_longest_valid_prefix(bytes, k) implies k == best by {
        if k < best {
            assert(!valid_utf8(bytes.subrange(0, best)));
        } else if best < k {
            assert(!valid_utf8(bytes.subrange(0, k)));
        }
    }
}

/// What follows a valid prefix of a valid buffer is valid too.
pub proof fn lemma_valid_suffix(head: Seq<u8>, tail: Seq<u8>)
    requires
        valid_utf8(head),
        valid_utf8(head + tail),
    ensures
        valid_utf8(tail),
{
    let whole = head + tail;
    let cut = head.len() as int;
    assert(whole.subrange(0, cut) =~= head);
    assert(whole.subrange(cut, whole.len() as int) =~= tail);
    if !valid_utf8(tail) {
        partial_valid_partial_invalid_utf8(whole, cut);
    }
}

/// A valid head followed by an invalid tail is invalid.
pub proof fn lemma_invalid_tail(head: Seq<u8>, tail: Seq<u8>)
    requires
        valid_utf8(head),
        !valid_utf8(tail),
    ensures
        !valid_utf8(head + tail),
{
    if valid_utf8(head + tail) {
        lemma_valid_suffix(head, tail);
    }
}

/// A non-empty valid buffer starts with one whole character of at most four
/// bytes, which is valid on its own.
pub proof fn lemma_first_char(bytes: Seq<u8>)
    requires
        valid_utf8(bytes),
        bytes.len() > 0,
    ensures
        1 <= length_of_first_scalar(bytes) <= 4,
        length_of_first_scalar(bytes) <= bytes.len(),
        valid_utf8(bytes.subrange(0, length_of_first_scalar(bytes))),
{
    reveal_with_fuel(valid_utf8, 2);
    let first = take_first_scalar(bytes);
    assert(valid_first_scalar(first));
    assert(pop_first_scalar(first).len() == 0);
}

/// What is left of a buffer after its longest valid prefix is empty or
/// invalid on its own.
pub proof fn lemma_rest_is_invalid(bytes: Seq<u8>)
    ensures
        valid_prefix_len(bytes) < bytes.len() ==> !valid_utf8(
            bytes.subrange(valid_prefix_len(bytes) as int, bytes.len() as int),
        ),
{
    lemma_valid_prefix_len(bytes);
    let k = valid_prefix_len(bytes) as int;
    let n = bytes.len() as int;
    if k < n {
        let head = bytes.subrange(0, k);
        let tail = bytes.subrange(k, n);
        if valid_utf8(tail) {
            valid_utf8_concat(head, tail);
            assert(head + tail =~= bytes);
            assert(bytes.subrange(0, n) =~= bytes);
        }
    }
}

/// Decodes `bytes` with `core::str::from_utf8`. On success the text has exactly
/// these bytes. On failure the number handed back is the error's
/// `valid_up_to()`: the length of the longest prefix that is valid UTF-8.
#[verifier::external_body]
pub(crate) fn decode_utf8_prefix(bytes: &[u8]) -> (decoded: Result<&str, usize>)
    ensures
        match decoded {
            Ok(text) => valid_utf8(bytes@) && text.spec_bytes() == bytes@,
            Err(k) => !valid_utf8(bytes@) && is_longest_valid_prefix(bytes@, k as int),
        },
{
    match core::str::from_utf8(bytes) {
        Ok(text) => Ok(text),
        Err(e) => Err(e.valid_up_to()),
    }
}

} // verus!
