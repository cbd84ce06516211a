//! Which fixes count towards the energy, and how much each adds.
//!
//! A fix counts while the storm is tropical and the observation was made at
//! one of the four synoptic hours. It adds the square of its wind speed, but
//! nothing below the strength of a tropical storm.

use vstd::prelude::*;
use crate::ascii::{
    UPPER_B, UPPER_D, UPPER_E, UPPER_L, UPPER_M, UPPER_O, UPPER_S, UPPER_T, UPPER_X,
};
use crate::basin::{basin_of, Basin};
use crate::record::{FixRecord, StormType};

verus! {

/// The wind speed, in knots, from which a storm is a tropical storm.
pub const TROPICAL_STORM: i32 = 35;

/// The hours between two synoptic observations.
pub const SYNOPTIC_STEP: i32 = 6;

/// The stages that are not tropical: `SD`, `SS`, `LO`, `MD`, `EX`, `DB` and
/// `ET`.
pub open spec fn non_tropical(storm_type: StormType) -> bool {
    ||| storm_type == StormType::Code(UPPER_S, UPPER_D)
    ||| storm_type == StormType::Code(UPPER_S, UPPER_S)
    ||| storm_type == StormType::Code(UPPER_L, UPPER_O)
    ||| storm_type == StormType::Code(UPPER_M, UPPER_D)
    ||| storm_type == StormType::Code(UPPER_E, UPPER_X)
    ||| storm_type == StormType::Code(UPPER_D, UPPER_B)
    ||| storm_type == StormType::Code(UPPER_E, UPPER_T)
}

/// Tells whether a stage is tropical. A line that names no stage is taken
/// to be.
pub fn is_tropical(storm_type: StormType) -> (tropical: bool)
    ensures
        tropical == !non_tropical(storm_type),
{
    match storm_type {
        StormType::Absent => true,
        StormType::Code(first, second) => {
            !((first == UPPER_S && (second == UPPER_D || second == UPPER_S)) || (first == UPPER_L
                && second == UPPER_O) || (first == UPPER_M && second == UPPER_D) || (first
                == UPPER_E && (second == UPPER_X || second == UPPER_T)) || (first == UPPER_D
                && second == UPPER_B))
        },
    }
}

/// The hour is one of the synoptic hours: a multiple of six.
pub open spec fn synoptic(hour: int) -> bool {
    hour % (SYNOPTIC_STEP as int) == 0
}

/// Tells whether an hour is one of the synoptic hours.
pub fn is_synop_time(hour: i32) -> (on_time: bool)
    ensures
        on_time == synoptic(hour as int),
{
    let wide: i64 = hour as i64;
    let distance: i64 = if wide < 0 {
        -wide
    } else {
        wide
    };
    distance % (SYNOPTIC_STEP as i64) == 0
}

/// The fix counts towards the energy.
pub open spec fn is_eligible(fix: FixRecord) -> bool {
    !non_tropical(fix.storm_type) && synoptic(fix.hour as int)
}

/// The energy that a fix adds, in squared knots.
pub open spec fn fix_energy(fix: FixRecord) -> int {
    if is_eligible(fix) && fix.wind_knots >= TROPICAL_STORM {
        fix.wind_knots * fix.wind_knots
    } else {
        0
    }
}

/// The basin in which a fix lies.
pub open spec fn fix_basin(fix: FixRecord) -> Basin {
    basin_of(fix.latitude as int, fix.longitude as int)
}

/// A fix that counts, with the wind of a tropical storm or more, adds the
/// square of its wind speed.
pub proof fn lemma_eligible_fix_adds_square(fix: FixRecord)
    requires
        is_eligible(fix),
        fix.wind_knots >= 35,
    ensures
        fix_energy(fix) == fix.wind_knots * fix.wind_knots,
{
}

/// Below the strength of a tropical storm a fix adds nothing.
pub proof fn lemma_weak_fix_adds_nothing(fix: FixRecord)
    requires
        fix.wind_knots < 35,
    ensures
        fix_energy(fix) == 0,
{
}

/// A fix of a stage that is not tropical, such as `EX`, adds nothing,
/// whatever its wind speed and its hour.
pub proof fn lemma_non_tropical_fix_adds_nothing(fix: FixRecord)
    requires
        non_tropical(fix.storm_type),
    ensures
        fix_energy(fix) == 0,
{
}

/// A fix between two synoptic hours, such as hour 3, adds nothing, whatever
/// its wind speed and its stage.
pub proof fn lemma_off_hour_fix_adds_nothing(fix: FixRecord)
    requires
        fix.hour % 6 != 0,
    ensures
        fix_energy(fix) == 0,
{
}

/// Computes the energy that a fix adds.
pub fn energy_of(fix: &FixRecord) -> (energy: i64)
    ensures
        energy == fix_energy(*fix),
        is_eligible(*fix) && fix.wind_knots >= 35 ==> energy == fix.wind_knots * fix.wind_knots,
        !is_eligible(*fix) || fix.wind_knots < 35 ==> energy == 0,
        energy == 0 || energy >= 1225,
{
    if fix.wind_knots >= TROPICAL_STORM && is_tropical(fix.storm_type) && is_synop_time(fix.hour) {
        let knots: i64 = fix.wind_knots as i64;
        assert(35 * 35 <= knots * knots <= 0x8000_0000 * 0x8000_0000) by (nonlinear_arith)
            requires
                35 <= knots <= 0x8000_0000,
        ;
        knots * knots
    } else {
        0
    }
}

} // verus!
