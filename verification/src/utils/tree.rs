//! How deep below an entry its children are shown.

use core::cmp::Ordering;
use vstd::prelude::*;
use vstd::std_specs::cmp::{PartialEqSpecImpl, PartialOrdSpecImpl};
use vstd::string::StringSliceAdditionalSpecFns;

verus! {

/// A limit on depth: none, or a number of levels.
#[derive(Clone, Copy, Debug)]
pub enum TreeDepth {
    All,
    Depth(usize),
}

/// The text given for a `TreeDepth` is neither empty, nor `all`, nor a number
/// that a `usize` holds.
#[derive(Debug, PartialEq, Eq)]
pub struct InvalidTreeDepth {
    /// The text that was given.
    pub value: String,
}

/// `byte` is an ASCII digit.
pub open spec fn is_digit(byte: u8) -> bool {
    0x30 <= byte <= 0x39
}

/// The number that a run of ASCII digits writes; 0 for none.
pub open spec fn decimal_value(digits: Seq<u8>) -> nat
    decreases digits.len(),
{
    if digits.len() == 0 {
        0
    } else {
        decimal_value(digits.drop_last()) * 10 + (digits.last() - 0x30) as nat
    }
}

/// `text` is the word `all`, in any mix of upper and lower case.
pub open spec fn is_all(text: Seq<u8>) -> bool {
    &&& text.len() == 3
    &&& (text[0] == 0x61 || text[0] == 0x41)
    &&& (text[1] == 0x6c || text[1] == 0x4c)
    &&& (text[2] == 0x6c || text[2] == 0x4c)
}

/// The digits of a number: the text without the plus sign that may lead it.
pub open spec fn unsigned_part(text: Seq<u8>) -> Seq<u8> {
    if text.len() > 0 && text[0] == 0x2b {
        text.skip(1)
    } else {
        text
    }
}

/// `text` writes a number: digits, at least one, after at most one plus sign.
pub open spec fn is_number(text: Seq<u8>) -> bool {
    let digits = unsigned_part(text);
    digits.len() > 0 && forall|i: int| 0 <= i < digits.len() ==> is_digit(#[trigger] digits[i])
}

/// The depth that `text` names, if it names one: no limit for the empty text
/// and for `all`, and a number of levels for a number that a `usize` holds.
pub open spec fn depth_named(text: Seq<u8>) -> Option<TreeDepth> {
    if text.len() == 0 || is_all(text) {
        Some(TreeDepth::All)
    } else if is_number(text) && decimal_value(unsigned_part(text)) <= usize::MAX {
        Some(TreeDepth::Depth(decimal_value(unsigned_part(text)) as usize))
    } else {
        None
    }
}

/// A longer run of digits writes no smaller number.
proof fn lemma_decimal_value_grows(digits: Seq<u8>, i: int)
    requires
        0 <= i <= digits.len(),
        forall|j: int| 0 <= j < digits.len() ==> is_digit(#[trigger] digits[j]),
    ensures
        decimal_value(digits.take(i)) <= decimal_value(digits),
    decreases digits.len() - i,
{
    if i == digits.len() {
        assert(digits.take(i) =~= digits);
    } else {
        assert(digits.take(i + 1).drop_last() =~= digits.take(i));
        assert(is_digit(digits[i]));
        lemma_decimal_value_grows(digits, i + 1);
    }
}

/// Reads a number from its digits, or nothing where the text is no number or
/// the number is more than a `usize` holds.
fn parse_number(text: &[u8]) -> (number: Option<usize>)
    ensures
        match number {
            Some(n) => is_number(text@) && n == decimal_value(unsigned_part(text@)),
            None => !is_number(text@) || decimal_value(unsigned_part(text@)) > usize::MAX,
        },
{
    let start: usize = if text.len() > 0 && text[0] == 0x2b {
        1
    } else {
        0
    };
    if start == text.len() {
        return None;
    }
    let ghost digits = unsigned_part(text@);
    let mut value: usize = 0;
    let mut i: usize = start;
    proof {
        assert(digits.take(0) =~= Seq::empty());
    }
    while i < text.len()
        invariant
            start <= i <= text.len(),
            digits == unsigned_part(text@),
            digits.len() == text.len() - start,
            forall|j: int| 0 <= j < digits.len() ==> digits[j] == text@[j + start],
            forall|j: int| 0 <= j < i - start ==> is_digit(#[trigger] digits[j]),
            value == decimal_value(digits.take(i - start)),
        decreases text.len() - i,
    {
        let byte = text[i];
        if byte < 0x30 || byte > 0x39 {
            proof {
                assert(!is_digit(digits[i - start]));
            }
            return None;
        }
        proof {
            assert(digits.take(i - start + 1).drop_last() =~= digits.take(i - start));
            if is_number(text@) {
                lemma_decimal_value_grows(digits, i - start + 1);
            }
        }
        let digit: usize = (byte - 0x30) as usize;
        value = match value.checked_mul(10) {
            Some(tens) => match tens.checked_add(digit) {
                Some(value) => value,
                None => {
                    return None;
                },
            },
            None => {
                return None;
            },
        };
        i = i + 1;
    }
    proof {
        assert(digits.take(i - start) =~= digits);
    }
    Some(value)
}

impl TreeDepth {
    /// Reads a depth from text: no limit for the empty text and for `all` in
    /// any case, a number of levels for a number, and else a failure that
    /// holds the text.
    pub fn parse(s: &str) -> (depth: Result<TreeDepth, InvalidTreeDepth>)
        ensures
            match depth {
                Ok(depth) => depth_named(s.spec_bytes()) == Some(depth),
                Err(invalid) => depth_named(s.spec_bytes()) is None && invalid.value@ == s@,
            },
    {
        let text = s.as_bytes();
        if text.len() == 0 {
            return Ok(TreeDepth::All);
        }
        if text.len() == 3 && (text[0] == 0x61 || text[0] == 0x41) && (text[1] == 0x6c || text[1]
            == 0x4c) && (text[2] == 0x6c || text[2] == 0x4c) {
            return Ok(TreeDepth::All);
        }
        match parse_number(text) {
            Some(n) => Ok(TreeDepth::Depth(n)),
            None => Err(InvalidTreeDepth { value: s.to_owned() }),
        }
    }
}

impl core::str::FromStr for TreeDepth {
    type Err = InvalidTreeDepth;

    /// Reads a depth from text, as `parse` does: no limit for the empty text
    /// and for `all` in any case, a number of levels for a number, and else
    /// a failure that holds the text.
    fn from_str(s: &str) -> (depth: Result<Self, Self::Err>)
        ensures
            match depth {
                Ok(depth) => depth_named(s.spec_bytes()) == Some(depth),
                Err(invalid) => depth_named(s.spec_bytes()) is None && invalid.value@ == s@,
            },
    {
        TreeDepth::parse(s)
    }
}

impl PartialEq<usize> for TreeDepth {
    /// No number of levels equals the missing limit.
    fn eq(&self, other: &usize) -> (equal: bool) {
        match self {
            TreeDepth::All => false,
            TreeDepth::Depth(n) => *n == *other,
        }
    }
}

impl PartialEqSpecImpl<usize> for TreeDepth {
    open spec fn obeys_eq_spec() -> bool {
        true
    }

    open spec fn eq_spec(&self, other: &usize) -> bool {
        match self {
            TreeDepth::All => false,
            TreeDepth::Depth(n) => n == *other,
        }
    }
}

impl PartialOrd<usize> for TreeDepth {
    /// The missing limit is above every number of levels.
    fn partial_cmp(&self, other: &usize) -> (order: Option<Ordering>) {
        match self {
            TreeDepth::All => Some(Ordering::Greater),
            TreeDepth::Depth(n) => if *n < *other {
                Some(Ordering::Less)
            } else if *n == *other {
                Some(Ordering::Equal)
            } else {
                Some(Ordering::Greater)
            },
        }
    }
}

impl PartialOrdSpecImpl<usize> for TreeDepth {
    open spec fn obeys_partial_cmp_spec() -> bool {
        true
    }

    open spec fn partial_cmp_spec(&self, other: &usize) -> Option<Ordering> {
        match self {
            TreeDepth::All => Some(Ordering::Greater),
            TreeDepth::Depth(n) => if n < *other {
                Some(Ordering::Less)
            } else if n == *other {
                Some(Ordering::Equal)
            } else {
                Some(Ordering::Greater)
            },
        }
    }
}

impl PartialEq<TreeDepth> for usize {
    /// No number of levels equals the missing limit.
    fn eq(&self, other: &TreeDepth) -> (equal: bool) {
        match other {
            TreeDepth::All => false,
            TreeDepth::Depth(n) => *self == *n,
        }
    }
}

impl PartialEqSpecImpl<TreeDepth> for usize {
    open spec fn obeys_eq_spec() -> bool {
        true
    }

    open spec fn eq_spec(&self, other: &TreeDepth) -> bool {
        match other {
            TreeDepth::All => false,
            TreeDepth::Depth(n) => *self == *n,
        }
    }
}

impl PartialOrd<TreeDepth> for usize {
    /// Every number of levels is below the missing limit.
    fn partial_cmp(&self, other: &TreeDepth) -> (order: Option<Ordering>) {
        match other {
            TreeDepth::All => Some(Ordering::Less),
            TreeDepth::Depth(n) => if *self < *n {
                Some(Ordering::Less)
            } else if *self == *n {
                Some(Ordering::Equal)
            } else {
                Some(Ordering::Greater)
            },
        }
    }
}

impl PartialOrdSpecImpl<TreeDepth> for usize {
    open spec fn obeys_partial_cmp_spec() -> bool {
        true
    }

    open spec fn partial_cmp_spec(&self, other: &TreeDepth) -> Option<Ordering> {
        match other {
            TreeDepth::All => Some(Ordering::Less),
            TreeDepth::Depth(n) => if *self < *n {
                Some(Ordering::Less)
            } else if *self == *n {
                Some(Ordering::Equal)
            } else {
                Some(Ordering::Greater)
            },
        }
    }
}

/// A level has reached the limit when it is not below it. No level reaches
/// the missing limit.
pub fn reached(depth: usize, limit: TreeDepth) -> (reached: bool)
    ensures
        reached == match limit {
            TreeDepth::All => false,
            TreeDepth::Depth(n) => depth >= n,
        },
{
    depth >= limit
}

} // verus!
