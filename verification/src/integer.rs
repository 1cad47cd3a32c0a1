//! Whole numbers written in decimal: an optional sign, then one or more of the
//! digits `0` to `9`, and nothing else.

use vstd::prelude::*;
use vstd::string::StrSliceExecFns;

verus! {

/// The character is one of `0` to `9`.
pub open spec fn is_digit(c: char) -> bool {
    '0' <= c <= '9'
}

/// What a digit counts for.
pub open spec fn digit_value(c: char) -> nat {
    (c as nat - '0' as nat) as nat
}

/// The text starts with `+` or `-`.
pub open spec fn has_sign(text: Seq<char>) -> bool {
    text.len() > 0 && (text[0] == '+' || text[0] == '-')
}

/// The text without its sign.
pub open spec fn digits_of(text: Seq<char>) -> Seq<char> {
    if has_sign(text) {
        text.subrange(1, text.len() as int)
    } else {
        text
    }
}

/// Every character is a digit.
pub open spec fn all_digits(digits: Seq<char>) -> bool {
    forall|i: int| 0 <= i < digits.len() ==> is_digit(#[trigger] digits[i])
}

/// The number that a run of digits writes, most significant digit first.
pub open spec fn decimal_value(digits: Seq<char>) -> nat
    decreases digits.len(),
{
    if digits.len() == 0 {
        0
    } else {
        decimal_value(digits.drop_last()) * 10 + digit_value(digits.last())
    }
}

/// The text is a whole number: at least one digit after the optional sign,
/// and digits only.
pub open spec fn is_integer_text(text: Seq<char>) -> bool {
    digits_of(text).len() > 0 && all_digits(digits_of(text))
}

/// The whole number that the text writes.
pub open spec fn integer_value(text: Seq<char>) -> int {
    if text.len() > 0 && text[0] == '-' {
        -(decimal_value(digits_of(text)) as int)
    } else {
        decimal_value(digits_of(text)) as int
    }
}

/// The count that the text writes: a whole number that is not negative and
/// fits in an `i32`. Anything else is no count.
pub open spec fn count_of(text: Seq<char>) -> Option<i32> {
    if is_integer_text(text) && 0 <= integer_value(text) <= i32::MAX {
        Some(integer_value(text) as i32)
    } else {
        None
    }
}

/// Reading more digits never makes the number smaller.
pub proof fn lemma_decimal_value_grows(digits: Seq<char>, k: int)
    requires
        0 <= k <= digits.len(),
    ensures
        decimal_value(digits.subrange(0, k)) <= decimal_value(digits),
    decreases digits.len() - k,
{
    if k == digits.len() {
        assert(digits.subrange(0, k) == digits);
    } else {
        let front = digits.drop_last();
        if k == front.len() {
            assert(digits.subrange(0, k) == front);
        } else {
            assert(digits.subrange(0, k) == front.subrange(0, k));
            lemma_decimal_value_grows(front, k);
        }
    }
}

/// Reads a count from text.
pub fn parse_count(text: &str) -> (r: Option<i32>)
    ensures
        r == count_of(text@),
{
    let n: usize = text.unicode_len();
    let mut negative: bool = false;
    let mut start: usize = 0;
    if n > 0 {
        let first: char = text.get_char(0);
        if first == '-' {
            negative = true;
            start = 1;
        } else if first == '+' {
            start = 1;
        }
    }
    let ghost digits = digits_of(text@);
    assert(digits == text@.subrange(start as int, n as int));
    if start == n {
        return None;
    }
    let mut value: u32 = 0;
    let mut i: usize = start;
    while i < n
        invariant
            start <= i <= n,
            n == text@.len(),
            digits == digits_of(text@),
            digits == text@.subrange(start as int, n as int),
            all_digits(digits.subrange(0, i - start)),
            value == decimal_value(digits.subrange(0, i - start)),
            value <= i32::MAX,
        decreases n - i,
    {
        let c: char = text.get_char(i);
        let ghost seen = digits.subrange(0, i - start);
        let ghost next = digits.subrange(0, i - start + 1);
        assert(next.drop_last() == seen);
        assert(next.last() == c);
        if !(c >= '0' && c <= '9') {
            assert(!is_digit(digits[i - start]));
            return None;
        }
        let d: u32 = c as u32 - '0' as u32;
        assert(d == digit_value(c));
        if value > 214_748_364 || (value == 214_748_364 && d > 7) {
            proof {
                assert(decimal_value(next) > i32::MAX);
                lemma_decimal_value_grows(digits, i - start + 1);
            }
            return None;
        }
        value = value * 10 + d;
        assert forall|k: int| 0 <= k < next.len() implies is_digit(#[trigger] next[k]) by {
            if k < seen.len() {
                assert(next[k] == seen[k]);
            }
        }
        i += 1;
    }
    assert(digits.subrange(0, n - start) == digits);
    if negative && value != 0 {
        None
    } else {
        Some(value as i32)
    }
}

} // verus!
