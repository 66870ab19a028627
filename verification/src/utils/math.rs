//! Decimal digit counting.

use vstd::prelude::*;

verus! {

/// Number of decimal digits needed to write `n`; zero is written with one digit.
pub open spec fn digit_count(n: nat) -> nat
    decreases n,
{
    if n < 10 {
        1
    } else {
        1 + digit_count(n / 10)
    }
}

/// Ten to the power `e`.
pub open spec fn pow10(e: nat) -> nat
    decreases e,
{
    if e == 0 {
        1
    } else {
        10 * pow10((e - 1) as nat)
    }
}

/// A positive number lies between the powers of ten that its digit count names:
/// `10^(d-1) <= n < 10^d`.
pub proof fn lemma_digit_count_bounds(n: nat)
    ensures
        digit_count(n) >= 1,
        n < pow10(digit_count(n)),
        n > 0 ==> pow10((digit_count(n) - 1) as nat) <= n,
    decreases n,
{
    reveal_with_fuel(pow10, 2);
    if n >= 10 {
        lemma_digit_count_bounds(n / 10);
    }
}

/// A larger number has no fewer digits.
pub proof fn lemma_digit_count_grows(smaller: nat, larger: nat)
    requires
        smaller <= larger,
    ensures
        digit_count(smaller) <= digit_count(larger),
    decreases larger,
{
    if smaller >= 10 {
        lemma_digit_count_grows(smaller / 10, larger / 10);
    }
}

/// No `u64` needs more than twenty digits.
pub proof fn lemma_digit_count_u64(n: u64)
    ensures
        1 <= digit_count(n as nat) <= 20,
{
    reveal_with_fuel(digit_count, 21);
}

/// Counts the decimal digits of `n`.
pub fn count_digits(n: u64) -> (count: usize)
    ensures
        count == digit_count(n as nat),
        1 <= count <= 20,
{
    proof {
        lemma_digit_count_u64(n);
    }
    if n == 0 {
        return 1;
    }
    let mut rest: u64 = n;
    let mut count: usize = 0;
    while rest > 0
        invariant
            count <= digit_count(n as nat) <= 20,
            rest > 0 ==> count + digit_count(rest as nat) == digit_count(n as nat),
            rest == 0 ==> count == digit_count(n as nat),
        decreases rest,
    {
        rest = rest / 10;
        count = count + 1;
    }
    count
}

} // verus!
