//! One advisory line and the fix that it reports.
//!
//! A line is a row of fixed-width fields. The offsets below count bytes from
//! the start of the line, and each range includes its start and excludes its
//! end.

use vstd::prelude::*;
use vstd::slice::slice_subrange;
use crate::ascii::{UPPER_S, UPPER_W};
use crate::decimal::{integer_of, lemma_short_integer_bounds, parse_integer};
use crate::error::BdeckError;
use crate::fields::{
    decode_tenths, decode_wind, lemma_without_blanks_len, tenths_of, wind_digits, wind_of,
    without_blanks, WIND_NOT_REPORTED,
};

verus! {

/// Start of the time stamp, ten bytes that spell year, month, day and hour.
pub const STAMP_START: usize = 8;

/// End of the year, and start of the month.
pub const YEAR_END: usize = 12;

/// End of the month.
pub const MONTH_END: usize = 14;

/// Start of the hour.
pub const HOUR_START: usize = 16;

/// End of the time stamp.
pub const STAMP_END: usize = 18;

/// Start of the latitude, three bytes of tenths of a degree.
pub const LATITUDE_START: usize = 35;

/// Place of the letter that names the hemisphere of the latitude.
pub const LATITUDE_MARK: usize = 38;

/// Start of the longitude, four bytes of tenths of a degree.
pub const LONGITUDE_START: usize = 41;

/// Place of the letter that names the hemisphere of the longitude.
pub const LONGITUDE_MARK: usize = 45;

/// Start of the wind speed in a line of the long form.
pub const WIND_START: usize = 48;

/// End of the wind speed in a line of the long form.
pub const WIND_END: usize = 51;

/// Width of the wind speed.
pub const WIND_WIDTH: usize = 3;

/// The length from which on a line is of the long form.
pub const LONG_FORM: usize = 52;

/// Start of the storm type.
pub const TYPE_START: usize = 59;

/// End of the storm type.
pub const TYPE_END: usize = 61;

/// A full circle in tenths of a degree.
pub const FULL_CIRCLE: i32 = 3600;

/// The first month that belongs to the next season in the south.
pub const SEASON_TURN: i32 = 7;

/// The development stage that a line reports.
#[derive(Clone, Copy, Debug, PartialEq, Eq, Structural)]
pub enum StormType {
    /// The line is too short to say.
    Absent,
    /// The two bytes of the code.
    Code(u8, u8),
}

/// One position and intensity report.
#[derive(Clone, Copy, Debug, PartialEq, Eq, Structural)]
pub struct FixRecord {
    /// The season to which the fix counts.
    pub year: i32,
    /// The month of the time stamp.
    pub month: i32,
    /// The hour of the time stamp.
    pub hour: i32,
    /// The sustained wind in knots.
    pub wind_knots: i32,
    /// Tenths of a degree, negative south of the equator.
    pub latitude: i32,
    /// Tenths of a degree eastward from Greenwich.
    pub longitude: i32,
    /// The development stage.
    pub storm_type: StormType,
}

/// The season of a time stamp: in the southern hemisphere the months from
/// July on count to the following year.
pub open spec fn adjusted_year(southern: bool, year: int, month: int) -> int {
    if southern && month >= SEASON_TURN {
        year + 1
    } else {
        year
    }
}

/// Assigns a time stamp to its season.
pub fn season_year(southern: bool, year: i32, month: i32) -> (season: i32)
    requires
        year < i32::MAX,
    ensures
        season == adjusted_year(southern, year as int, month as int),
        southern && 7 <= month <= 12 ==> season == year + 1,
        1 <= month <= 6 ==> season == year,
        !southern ==> season == year,
{
    if southern && month >= SEASON_TURN {
        year + 1
    } else {
        year
    }
}

/// The ten bytes of the time stamp.
pub open spec fn stamp_of(line: Seq<u8>) -> Seq<u8> {
    line.subrange(STAMP_START as int, STAMP_END as int)
}

/// The year as the time stamp spells it.
pub open spec fn year_of(line: Seq<u8>) -> Option<int> {
    integer_of(line.subrange(STAMP_START as int, YEAR_END as int))
}

/// The month of the time stamp.
pub open spec fn month_of(line: Seq<u8>) -> Option<int> {
    integer_of(line.subrange(YEAR_END as int, MONTH_END as int))
}

/// The hour of the time stamp.
pub open spec fn hour_of(line: Seq<u8>) -> Option<int> {
    integer_of(line.subrange(HOUR_START as int, STAMP_END as int))
}

/// The bytes that hold the wind speed: a fixed place in the long form, the
/// last three bytes of the line in the short form.
pub open spec fn wind_field(line: Seq<u8>) -> Seq<u8> {
    if line.len() < LONG_FORM {
        line.subrange(line.len() - WIND_WIDTH, line.len() as int)
    } else {
        line.subrange(WIND_START as int, WIND_END as int)
    }
}

/// The latitude in tenths of a degree; the letter `S` makes it negative.
pub open spec fn latitude_of(line: Seq<u8>) -> Option<int> {
    match tenths_of(line.subrange(LATITUDE_START as int, LATITUDE_MARK as int)) {
        Some(tenths) => Some(
            if line[LATITUDE_MARK as int] == UPPER_S {
                -tenths
            } else {
                tenths
            },
        ),
        None => None,
    }
}

/// The longitude in tenths of a degree; with the letter `W` it is counted
/// back from the full circle.
pub open spec fn longitude_of(line: Seq<u8>) -> Option<int> {
    match tenths_of(line.subrange(LONGITUDE_START as int, LONGITUDE_MARK as int)) {
        Some(tenths) => Some(
            if line[LONGITUDE_MARK as int] == UPPER_W {
                FULL_CIRCLE - tenths
            } else {
                tenths
            },
        ),
        None => None,
    }
}

/// The storm type, which only a line of more than sixty bytes carries.
pub open spec fn storm_type_of(line: Seq<u8>) -> StormType {
    if line.len() >= TYPE_END {
        StormType::Code(line[TYPE_START as int], line[TYPE_START + 1])
    } else {
        StormType::Absent
    }
}

/// The fix that a line reports, or the reason for which it reports none.
/// The fields are taken in the order time stamp, latitude, longitude, hour,
/// and the first one that fails decides the error: a field that lies beyond
/// the end of the line is out of bounds, one that holds no number is
/// malformed. The wind never fails.
pub open spec fn fix_of_line(line: Seq<u8>, southern: bool) -> Result<FixRecord, BdeckError> {
    if line.len() < STAMP_END {
        Err(BdeckError::FieldOutOfBounds)
    } else if year_of(line) is None || month_of(line) is None {
        Err(BdeckError::MalformedNumber)
    } else if line.len() <= LATITUDE_MARK {
        Err(BdeckError::FieldOutOfBounds)
    } else if latitude_of(line) is None {
        Err(BdeckError::MalformedNumber)
    } else if line.len() <= LONGITUDE_MARK {
        Err(BdeckError::FieldOutOfBounds)
    } else if longitude_of(line) is None || hour_of(line) is None {
        Err(BdeckError::MalformedNumber)
    } else {
        Ok(
            FixRecord {
                year: adjusted_year(southern, year_of(line)->0, month_of(line)->0) as i32,
                month: month_of(line)->0 as i32,
                hour: hour_of(line)->0 as i32,
                wind_knots: wind_of(wind_field(line)) as i32,
                latitude: latitude_of(line)->0 as i32,
                longitude: longitude_of(line)->0 as i32,
                storm_type: storm_type_of(line),
            },
        )
    }
}

/// The fix of a line holds what the fields say, none of it cut to size: the
/// year is that of the time stamp, one more for a month from July on in the
/// southern hemisphere and never otherwise, and the wind is never the "no
/// report" value.
pub proof fn lemma_fix_holds_the_fields(line: Seq<u8>, southern: bool)
    requires
        fix_of_line(line, southern) is Ok,
    ensures
        ({
            let fix = fix_of_line(line, southern)->Ok_0;
            let year = year_of(line)->0;
            let month = month_of(line)->0;
            &&& fix.year == adjusted_year(southern, year, month)
            &&& southern && month >= 7 ==> fix.year == year + 1
            &&& !southern || month <= 6 ==> fix.year == year
            &&& fix.month == month
            &&& fix.hour == hour_of(line)->0
            &&& fix.wind_knots == wind_of(wind_field(line))
            &&& 0 <= fix.wind_knots < WIND_NOT_REPORTED
            &&& fix.latitude == latitude_of(line)->0
            &&& fix.longitude == longitude_of(line)->0
        }),
{
    lemma_short_integer_bounds(line.subrange(STAMP_START as int, YEAR_END as int));
    lemma_short_integer_bounds(line.subrange(YEAR_END as int, MONTH_END as int));
    lemma_short_integer_bounds(line.subrange(HOUR_START as int, STAMP_END as int));
    lemma_short_integer_bounds(wind_digits(wind_field(line)));
    let latitude = line.subrange(LATITUDE_START as int, LATITUDE_MARK as int);
    lemma_without_blanks_len(latitude);
    lemma_short_integer_bounds(without_blanks(latitude));
    let longitude = line.subrange(LONGITUDE_START as int, LONGITUDE_MARK as int);
    lemma_without_blanks_len(longitude);
    lemma_short_integer_bounds(without_blanks(longitude));
}

/// Decodes one line, without its line ending. `southern` says whether the
/// file belongs to the southern hemisphere.
pub fn decode_line(line: &[u8], southern: bool) -> (fix: Result<FixRecord, BdeckError>)
    ensures
        fix == fix_of_line(line@, southern),
{
    let len: usize = line.len();
    if len < STAMP_END {
        return Err(BdeckError::FieldOutOfBounds);
    }
    let year: i32 = match parse_integer(slice_subrange(line, STAMP_START, YEAR_END)) {
        Some(year) => year,
        None => {
            return Err(BdeckError::MalformedNumber);
        },
    };
    let month: i32 = match parse_integer(slice_subrange(line, YEAR_END, MONTH_END)) {
        Some(month) => month,
        None => {
            return Err(BdeckError::MalformedNumber);
        },
    };
    proof {
        lemma_short_integer_bounds(line@.subrange(STAMP_START as int, YEAR_END as int));
    }
    let season: i32 = season_year(southern, year, month);
    let wind_knots: i32 = if len < LONG_FORM {
        decode_wind(slice_subrange(line, len - WIND_WIDTH, len))
    } else {
        decode_wind(slice_subrange(line, WIND_START, WIND_END))
    };
    if len <= LATITUDE_MARK {
        return Err(BdeckError::FieldOutOfBounds);
    }
    let latitude: i32 = match decode_tenths(slice_subrange(line, LATITUDE_START, LATITUDE_MARK)) {
        Some(tenths) => {
            proof {
                let field = line@.subrange(LATITUDE_START as int, LATITUDE_MARK as int);
                lemma_without_blanks_len(field);
                lemma_short_integer_bounds(without_blanks(field));
            }
            if line[LATITUDE_MARK] == UPPER_S {
                -tenths
            } else {
                tenths
            }
        },
        None => {
            return Err(BdeckError::MalformedNumber);
        },
    };
    if len <= LONGITUDE_MARK {
        return Err(BdeckError::FieldOutOfBounds);
    }
    let longitude: i32 = match decode_tenths(
        slice_subrange(line, LONGITUDE_START, LONGITUDE_MARK),
    ) {
        Some(tenths) => {
            proof {
                let field = line@.subrange(LONGITUDE_START as int, LONGITUDE_MARK as int);
                lemma_without_blanks_len(field);
                lemma_short_integer_bounds(without_blanks(field));
            }
            if line[LONGITUDE_MARK] == UPPER_W {
                FULL_CIRCLE - tenths
            } else {
                tenths
            }
        },
        None => {
            return Err(BdeckError::MalformedNumber);
        },
    };
    let storm_type: StormType = if len >= TYPE_END {
        StormType::Code(line[TYPE_START], line[TYPE_START + 1])
    } else {
        StormType::Absent
    };
    let hour: i32 = match parse_integer(slice_subrange(line, HOUR_START, STAMP_END)) {
        Some(hour) => hour,
        None => {
            return Err(BdeckError::MalformedNumber);
        },
    };
    Ok(FixRecord { year: season, month, hour, wind_knots, latitude, longitude, storm_type })
}

} // verus!
