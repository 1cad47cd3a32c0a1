//! Double-precision numbers, held as their IEEE 754 binary64 bit patterns.
//!
//! Every number that flows through this crate is a `u64`: the sign in the top
//! bit, then eleven exponent bits and fifty-two fraction bits. The caller turns
//! text into such a pattern and a pattern back into a number; this module knows
//! how patterns are ordered, which is all the ingestion logic needs of them.

use vstd::prelude::*;

verus! {

/// The top bit, set for negative numbers (and for negative zero).
pub const SIGN_BIT: u64 = 0x8000_0000_0000_0000;

/// The pattern of positive infinity. Larger magnitudes are not numbers.
pub const POSITIVE_INFINITY: u64 = 0x7ff0_0000_0000_0000;

/// The pattern of negative infinity.
pub const NEGATIVE_INFINITY: u64 = 0xfff0_0000_0000_0000;

/// The pattern of the number one.
pub const ONE: u64 = 0x3ff0_0000_0000_0000;

/// The pattern with its sign bit cleared.
pub open spec fn magnitude(bits: u64) -> int {
    if bits >= SIGN_BIT {
        bits - SIGN_BIT
    } else {
        bits as int
    }
}

/// The pattern is one of the not-a-number patterns.
pub open spec fn is_nan(bits: u64) -> bool {
    magnitude(bits) > POSITIVE_INFINITY
}

/// The pattern is a number other than an infinity.
pub open spec fn is_finite(bits: u64) -> bool {
    magnitude(bits) < POSITIVE_INFINITY
}

/// The pattern is positive or negative zero.
pub open spec fn is_zero(bits: u64) -> bool {
    magnitude(bits) == 0
}

/// A scale factor can be divided by: it is finite and not zero.
pub open spec fn usable_scale(bits: u64) -> bool {
    is_finite(bits) && !is_zero(bits)
}

/// An integer that orders as the number does: for two patterns that are
/// numbers, the first number is smaller exactly when its rank is smaller.
/// Both zeros have rank zero.
pub open spec fn rank(bits: u64) -> int {
    if bits >= SIGN_BIT {
        -magnitude(bits)
    } else {
        magnitude(bits)
    }
}

/// The numeric `<` on two patterns: false as soon as one is not a number.
pub open spec fn less(a: u64, b: u64) -> bool {
    !is_nan(a) && !is_nan(b) && rank(a) < rank(b)
}

/// The smaller of a running minimum and a new value. A value that is not a
/// number never replaces the running minimum.
pub open spec fn lower(acc: u64, value: u64) -> u64 {
    if less(value, acc) {
        value
    } else {
        acc
    }
}

/// The larger of a running maximum and a new value.
pub open spec fn upper(acc: u64, value: u64) -> u64 {
    if less(acc, value) {
        value
    } else {
        acc
    }
}

/// The running minimum over a whole series, seeded with positive infinity.
pub open spec fn lowest(values: Seq<u64>) -> u64
    decreases values.len(),
{
    if values.len() == 0 {
        POSITIVE_INFINITY
    } else {
        lower(lowest(values.drop_last()), values.last())
    }
}

/// The running maximum over a whole series, seeded with negative infinity.
pub open spec fn highest(values: Seq<u64>) -> u64
    decreases values.len(),
{
    if values.len() == 0 {
        NEGATIVE_INFINITY
    } else {
        upper(highest(values.drop_last()), values.last())
    }
}

/// Decides the numeric `<` on two patterns.
pub fn precedes(a: u64, b: u64) -> (r: bool)
    ensures
        r == less(a, b),
{
    let a_negative: bool = a >= SIGN_BIT;
    let b_negative: bool = b >= SIGN_BIT;
    let a_size: u64 = if a_negative { a - SIGN_BIT } else { a };
    let b_size: u64 = if b_negative { b - SIGN_BIT } else { b };
    if a_size > POSITIVE_INFINITY || b_size > POSITIVE_INFINITY {
        false
    } else if a_negative && b_negative {
        a_size > b_size
    } else if a_negative {
        a_size != 0 || b_size != 0
    } else if b_negative {
        false
    } else {
        a_size < b_size
    }
}

/// Decides whether a pattern can serve as a scale factor.
pub fn is_usable_scale(bits: u64) -> (r: bool)
    ensures
        r == usable_scale(bits),
{
    let size: u64 = if bits >= SIGN_BIT { bits - SIGN_BIT } else { bits };
    size != 0 && size < POSITIVE_INFINITY
}

/// The smaller of a running minimum and a new value.
pub fn min_with(acc: u64, value: u64) -> (r: u64)
    ensures
        r == lower(acc, value),
{
    if precedes(value, acc) {
        value
    } else {
        acc
    }
}

/// The larger of a running maximum and a new value.
pub fn max_with(acc: u64, value: u64) -> (r: u64)
    ensures
        r == upper(acc, value),
{
    if precedes(acc, value) {
        value
    } else {
        acc
    }
}

/// The running minimum is never a not-a-number pattern, and no value of the
/// series lies below it.
pub proof fn lemma_lowest_is_lower_bound(values: Seq<u64>, i: int)
    requires
        0 <= i < values.len(),
    ensures
        !is_nan(lowest(values)),
        !less(values[i], lowest(values)),
    decreases values.len(),
{
    lemma_lowest_is_number(values);
    let front = values.drop_last();
    lemma_lowest_is_number(front);
    if i < front.len() {
        lemma_lowest_is_lower_bound(front, i);
        assert(front[i] == values[i]);
    }
}

/// The running minimum is a number: the seed is, and a value that is not a
/// number is never taken.
pub proof fn lemma_lowest_is_number(values: Seq<u64>)
    ensures
        !is_nan(lowest(values)),
    decreases values.len(),
{
    if values.len() > 0 {
        lemma_lowest_is_number(values.drop_last());
    }
}

/// The running minimum is the seed or one of the values.
pub proof fn lemma_lowest_is_attained(values: Seq<u64>)
    ensures
        lowest(values) == POSITIVE_INFINITY || exists|i: int|
            0 <= i < values.len() && values[i] == lowest(values),
    decreases values.len(),
{
    if values.len() > 0 {
        let front = values.drop_last();
        lemma_lowest_is_attained(front);
        if lowest(values) == values.last() {
            assert(values[values.len() - 1] == lowest(values));
        } else if lowest(values) != POSITIVE_INFINITY {
            let i = choose|i: int| 0 <= i < front.len() && front[i] == lowest(front);
            assert(values[i] == lowest(values));
        }
    }
}

/// The running maximum is a number.
pub proof fn lemma_highest_is_number(values: Seq<u64>)
    ensures
        !is_nan(highest(values)),
    decreases values.len(),
{
    if values.len() > 0 {
        lemma_highest_is_number(values.drop_last());
    }
}

/// No value of the series lies above the running maximum.
pub proof fn lemma_highest_is_upper_bound(values: Seq<u64>, i: int)
    requires
        0 <= i < values.len(),
    ensures
        !is_nan(highest(values)),
        !less(highest(values), values[i]),
    decreases values.len(),
{
    lemma_highest_is_number(values);
    let front = values.drop_last();
    lemma_highest_is_number(front);
    if i < front.len() {
        lemma_highest_is_upper_bound(front, i);
        assert(front[i] == values[i]);
    }
}

/// The running maximum is the seed or one of the values.
pub proof fn lemma_highest_is_attained(values: Seq<u64>)
    ensures
        highest(values) == NEGATIVE_INFINITY || exists|i: int|
            0 <= i < values.len() && values[i] == highest(values),
    decreases values.len(),
{
    if values.len() > 0 {
        let front = values.drop_last();
        lemma_highest_is_attained(front);
        if highest(values) == values.last() {
            assert(values[values.len() - 1] == highest(values));
        } else if highest(values) != NEGATIVE_INFINITY {
            let i = choose|i: int| 0 <= i < front.len() && front[i] == highest(front);
            assert(values[i] == highest(values));
        }
    }
}

} // verus!
