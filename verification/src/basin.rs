//! Ocean basins and the rule that assigns a position to one of them.
//!
//! Positions are held in tenths of a degree, the unit of the advisory files:
//! latitude is negative in the southern hemisphere, and longitude counts
//! eastward from Greenwich, so that western longitudes continue past 180
//! degrees.

use vstd::prelude::*;

verus! {

/// The ocean regions by which energy is accounted.
#[derive(Clone, Copy, Debug, PartialEq, Eq, Structural)]
pub enum Basin {
    /// West Pacific.
    WPAC,
    /// North Indian Ocean.
    NIO,
    /// Southern hemisphere.
    SHEM,
    /// East Pacific.
    EPAC,
    /// Atlantic.
    ATL,
}

/// The basin of a position, as an ordered list of guarded cases: each case
/// applies only where all the earlier ones have failed.
///
/// Between 240 and 300 degrees the East Pacific and the Atlantic meet along
/// a coast that longitude alone does not give. The whole band counts as East
/// Pacific.
pub open spec fn basin_of(latitude: int, longitude: int) -> Basin {
    if latitude < 0 {
        Basin::SHEM
    } else if longitude < 1000 {
        if latitude < 400 {
            Basin::NIO
        } else if longitude < 700 {
            Basin::ATL
        } else {
            Basin::WPAC
        }
    } else if longitude <= 1800 {
        Basin::WPAC
    } else if longitude < 2400 {
        Basin::EPAC
    } else if longitude > 3000 {
        Basin::ATL
    } else {
        Basin::EPAC
    }
}

/// Each basin is a region of its own: the five regions below share no
/// position and leave none out, so every position lies in exactly one basin.
pub proof fn lemma_basin_regions(latitude: int, longitude: int)
    ensures
        basin_of(latitude, longitude) == Basin::SHEM <==> latitude < 0,
        basin_of(latitude, longitude) == Basin::NIO <==> 0 <= latitude < 400 && longitude < 1000,
        basin_of(latitude, longitude) == Basin::WPAC <==> (400 <= latitude && 700 <= longitude
            < 1000) || (0 <= latitude && 1000 <= longitude <= 1800),
        basin_of(latitude, longitude) == Basin::EPAC <==> 0 <= latitude && 1800 < longitude
            <= 3000,
        basin_of(latitude, longitude) == Basin::ATL <==> (400 <= latitude && longitude < 700) || (0
            <= latitude && 3000 < longitude),
{
}

/// Classifies a position given in tenths of a degree.
pub fn get_basin(latitude: i32, longitude: i32) -> (basin: Basin)
    ensures
        basin == basin_of(latitude as int, longitude as int),
{
    if latitude < 0 {
        return Basin::SHEM;
    }
    if longitude < 1000 {
        if latitude < 400 {
            Basin::NIO
        } else if longitude < 700 {
            Basin::ATL
        } else {
            Basin::WPAC
        }
    } else if longitude <= 1800 {
        Basin::WPAC
    } else if longitude < 2400 {
        Basin::EPAC
    } else if longitude > 3000 {
        Basin::ATL
    } else {
        Basin::EPAC
    }
}

} // verus!
