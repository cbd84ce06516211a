//! The ASCII codes that the advisory format uses.

use vstd::prelude::*;

verus! {

/// Horizontal tab, the first of the five control codes that count as blank.
pub const TAB: u8 = 9;

/// Line feed, which ends a line.
pub const LINE_FEED: u8 = 10;

/// Carriage return, the last of the five control codes that count as blank.
pub const CARRIAGE_RETURN: u8 = 13;

/// The space.
pub const SPACE: u8 = 32;

/// The plus sign.
pub const PLUS: u8 = 43;

/// The minus sign.
pub const MINUS: u8 = 45;

/// The digit `0`.
pub const DIGIT_0: u8 = 48;

/// The digit `9`.
pub const DIGIT_9: u8 = 57;

/// The letter `B`.
pub const UPPER_B: u8 = 66;

/// The letter `D`.
pub const UPPER_D: u8 = 68;

/// The letter `E`.
pub const UPPER_E: u8 = 69;

/// The letter `H`.
pub const UPPER_H: u8 = 72;

/// The letter `L`.
pub const UPPER_L: u8 = 76;

/// The letter `M`.
pub const UPPER_M: u8 = 77;

/// The letter `O`.
pub const UPPER_O: u8 = 79;

/// The letter `S`.
pub const UPPER_S: u8 = 83;

/// The letter `T`.
pub const UPPER_T: u8 = 84;

/// The letter `W`.
pub const UPPER_W: u8 = 87;

/// The letter `X`.
pub const UPPER_X: u8 = 88;

} // verus!
