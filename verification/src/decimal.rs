//! Decimal integers as they are written in a text field.

use vstd::prelude::*;
use crate::ascii::{DIGIT_0, DIGIT_9, MINUS, PLUS};

verus! {

/// An ASCII digit.
pub open spec fn is_digit(byte: u8) -> bool {
    DIGIT_0 <= byte <= DIGIT_9
}

/// Every byte is an ASCII digit.
pub open spec fn all_digits(text: Seq<u8>) -> bool {
    forall|i: int| 0 <= i < text.len() ==> is_digit(#[trigger] text[i])
}

/// The number that a run of digits denotes; the empty run denotes zero.
pub open spec fn digits_value(text: Seq<u8>) -> int
    decreases text.len(),
{
    if text.len() == 0 {
        0
    } else {
        digits_value(text.drop_last()) * 10 + (text.last() - DIGIT_0)
    }
}

/// The text has a sign in front of its digits.
pub open spec fn has_sign(text: Seq<u8>) -> bool {
    text.len() > 0 && (text[0] == PLUS || text[0] == MINUS)
}

/// The part of the text that follows the sign, if there is one.
pub open spec fn unsigned_part(text: Seq<u8>) -> Seq<u8> {
    if has_sign(text) {
        text.skip(1)
    } else {
        text
    }
}

/// The integer that the text denotes: an optional `+` or `-`, then one or
/// more digits and nothing else, with a value that an `i32` can hold.
pub open spec fn integer_of(text: Seq<u8>) -> Option<int> {
    let digits = unsigned_part(text);
    let magnitude = digits_value(digits);
    let value = if text.len() > 0 && text[0] == MINUS {
        -magnitude
    } else {
        magnitude
    };
    if digits.len() > 0 && all_digits(digits) && i32::MIN <= value <= i32::MAX {
        Some(value)
    } else {
        None
    }
}

/// Ten to the power `n`.
pub open spec fn power_of_ten(n: nat) -> int
    decreases n,
{
    if n == 0 {
        1
    } else {
        10 * power_of_ten((n - 1) as nat)
    }
}

/// A run of `n` digits denotes a number from zero up to, but not including,
/// ten to the power `n`.
pub proof fn lemma_digits_value_bounds(text: Seq<u8>)
    requires
        all_digits(text),
    ensures
        0 <= digits_value(text) < power_of_ten(text.len()),
    decreases text.len(),
{
    if text.len() > 0 {
        lemma_digits_value_bounds(text.drop_last());
    }
}

/// Reading more digits never makes the number smaller.
pub proof fn lemma_digits_value_grows(text: Seq<u8>, n: int)
    requires
        all_digits(text),
        0 <= n <= text.len(),
    ensures
        digits_value(text.take(n)) <= digits_value(text),
    decreases text.len(),
{
    if n == text.len() {
        assert(text.take(n) =~= text);
    } else {
        let shorter = text.drop_last();
        lemma_digits_value_grows(shorter, n);
        lemma_digits_value_bounds(shorter);
        assert(shorter.take(n) =~= text.take(n));
    }
}

/// A field of at most four bytes denotes, if anything, a number between
/// -999 and 9999; one of at most three bytes, a number between -99 and 999.
pub proof fn lemma_short_integer_bounds(text: Seq<u8>)
    requires
        text.len() <= 4,
    ensures
        integer_of(text) matches Some(value) ==> -999 <= value <= 9999,
        text.len() <= 3 ==> (integer_of(text) matches Some(value) ==> -99 <= value <= 999),
{
    let digits = unsigned_part(text);
    if digits.len() > 0 && all_digits(digits) {
        lemma_digits_value_bounds(digits);
        reveal_with_fuel(power_of_ten, 5);
    }
}

/// Reads a decimal integer. The whole text must be the number: there is no
/// allowance for blanks or other bytes before, between or after the digits.
pub fn parse_integer(text: &[u8]) -> (value: Option<i32>)
    ensures
        match value {
            Some(v) => integer_of(text@) == Some(v as int),
            None => integer_of(text@) is None,
        },
{
    let n: usize = text.len();
    if n == 0 {
        return None;
    }
    let negative: bool = text[0] == MINUS;
    let start: usize = if text[0] == PLUS || text[0] == MINUS {
        1
    } else {
        0
    };
    let ghost digits = unsigned_part(text@);
    // The magnitude is followed up to 2147483648, the magnitude of the least
    // `i32`; beyond it no sign makes the number fit.
    let mut magnitude: i64 = 0;
    let mut i: usize = start;
    while i < n
        invariant
            start <= i <= n,
            n == text.len(),
            digits == unsigned_part(text@),
            digits == text@.skip(start as int),
            all_digits(digits.take(i - start)),
            magnitude == digits_value(digits.take(i - start)),
            0 <= magnitude <= 2147483648,
        decreases n - i,
    {
        let byte: u8 = text[i];
        if byte < DIGIT_0 || byte > DIGIT_9 {
            assert(!is_digit(digits[i - start]));
            return None;
        }
        let next: i64 = magnitude * 10 + (byte - DIGIT_0) as i64;
        proof {
            let seen = digits.take(i + 1 - start);
            assert(seen.drop_last() =~= digits.take(i - start));
            assert(seen.last() == byte);
            assert(all_digits(seen)) by {
                assert forall|k: int| 0 <= k < seen.len() implies is_digit(#[trigger] seen[k]) by {
                    if k < i - start {
                        assert(seen[k] == digits.take(i - start)[k]);
                    }
                }
            }
            assert(next == digits_value(seen));
        }
        if next > 2147483648 {
            proof {
                if all_digits(digits) {
                    lemma_digits_value_grows(digits, i + 1 - start);
                }
            }
            return None;
        }
        magnitude = next;
        i = i + 1;
    }
    assert(digits.take(n - start) =~= digits);
    if start == n {
        None
    } else if negative {
        Some((-magnitude) as i32)
    } else if magnitude > 2147483647 {
        None
    } else {
        Some(magnitude as i32)
    }
}

} // verus!
