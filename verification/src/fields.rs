//! The decode rules of the single fields of an advisory line.

use vstd::prelude::*;
use crate::ascii::{CARRIAGE_RETURN, SPACE, TAB};
use crate::decimal::{integer_of, parse_integer};

verus! {

/// The wind speed that stands for "no report".
pub const WIND_NOT_REPORTED: i32 = 999;

/// The space and the five control codes from tab to carriage return.
pub open spec fn is_blank(byte: u8) -> bool {
    byte == SPACE || TAB <= byte <= CARRIAGE_RETURN
}

/// The text without its blanks, wherever they stand.
pub open spec fn without_blanks(text: Seq<u8>) -> Seq<u8>
    decreases text.len(),
{
    if text.len() == 0 {
        Seq::empty()
    } else if is_blank(text.last()) {
        without_blanks(text.drop_last())
    } else {
        without_blanks(text.drop_last()).push(text.last())
    }
}

/// Removing blanks does not make a text longer.
pub proof fn lemma_without_blanks_len(text: Seq<u8>)
    ensures
        without_blanks(text).len() <= text.len(),
    decreases text.len(),
{
    if text.len() > 0 {
        lemma_without_blanks_len(text.drop_last());
    }
}

/// Copies the bytes that are not blank.
pub fn strip_blanks(text: &[u8]) -> (kept: Vec<u8>)
    ensures
        kept@ == without_blanks(text@),
        kept.len() <= text.len(),
{
    let mut kept: Vec<u8> = Vec::new();
    let mut i: usize = 0;
    while i < text.len()
        invariant
            i <= text.len(),
            kept@ == without_blanks(text@.take(i as int)),
            kept.len() <= i,
        decreases text.len() - i,
    {
        let byte: u8 = text[i];
        assert(text@.take(i + 1).drop_last() =~= text@.take(i as int));
        if !(byte == SPACE || (TAB <= byte && byte <= CARRIAGE_RETURN)) {
            kept.push(byte);
        }
        i = i + 1;
    }
    assert(text@.take(text.len() as int) =~= text@);
    kept
}

/// The number in a coordinate field: blanks are dropped, and what is left
/// has to be an integer.
pub open spec fn tenths_of(field: Seq<u8>) -> Option<int> {
    integer_of(without_blanks(field))
}

/// Reads the number of a coordinate field.
pub fn decode_tenths(field: &[u8]) -> (tenths: Option<i32>)
    ensures
        match tenths {
            Some(v) => tenths_of(field@) == Some(v as int),
            None => tenths_of(field@) is None,
        },
{
    let digits: Vec<u8> = strip_blanks(field);
    parse_integer(digits.as_slice())
}

/// The wind field without the one space that may pad it on the left.
pub open spec fn wind_digits(field: Seq<u8>) -> Seq<u8> {
    if field.len() > 0 && field[0] == SPACE {
        field.skip(1)
    } else {
        field
    }
}

/// The wind speed in a wind field. A field that holds no number counts as
/// calm, and so do the "no report" value and anything below zero.
pub open spec fn wind_of(field: Seq<u8>) -> int {
    match integer_of(wind_digits(field)) {
        Some(knots) => if knots == WIND_NOT_REPORTED || knots < 0 {
            0
        } else {
            knots
        },
        None => 0,
    }
}

/// Reads the wind speed of a wind field.
pub fn decode_wind(field: &[u8]) -> (knots: i32)
    ensures
        knots == wind_of(field@),
        knots >= 0,
        knots != WIND_NOT_REPORTED,
        integer_of(wind_digits(field@)) == Some(WIND_NOT_REPORTED as int) ==> knots == 0,
{
    let start: usize = if field.len() > 0 && field[0] == SPACE {
        1
    } else {
        0
    };
    let digits: &[u8] = vstd::slice::slice_subrange(field, start, field.len());
    assert(digits@ =~= wind_digits(field@));
    match parse_integer(digits) {
        Some(knots) => if knots == WIND_NOT_REPORTED || knots < 0 {
            0
        } else {
            knots
        },
        None => 0,
    }
}

} // verus!
