//! The track of one storm, as its advisory file records it.
//!
//! The first line names the storm. Every line reports a fix, but a line that
//! bears the time stamp of the line before it only repeats that fix, for
//! another wind radius, and is passed over unread.

use vstd::prelude::*;
use vstd::slice::slice_subrange;
use crate::ascii::{UPPER_H, UPPER_S};
use crate::error::BdeckError;
use crate::lines::{lines_of, next_line};
use crate::record::{decode_line, fix_of_line, stamp_of, FixRecord, STAMP_END, STAMP_START};

verus! {

/// End of the basin code at the head of the file.
pub const BASIN_CODE_END: usize = 2;

/// Start of the storm number at the head of the file.
pub const STORM_NUMBER_START: usize = 4;

/// End of the storm number at the head of the file.
pub const STORM_NUMBER_END: usize = 6;

/// A storm's name and its fixes in the order of the file.
#[derive(Debug)]
pub struct Track {
    /// The basin code followed by the storm number.
    pub atcf_code: Vec<u8>,
    /// The fixes, one for each time stamp.
    pub fixes: Vec<FixRecord>,
}

/// The name of the storm: the two bytes of the basin code and the two bytes
/// of the storm number.
pub open spec fn atcf_code_of(text: Seq<u8>) -> Seq<u8> {
    text.subrange(0, BASIN_CODE_END as int) + text.subrange(
        STORM_NUMBER_START as int,
        STORM_NUMBER_END as int,
    )
}

/// The file belongs to the southern hemisphere: its basin code is `SH`.
pub open spec fn is_southern(text: Seq<u8>) -> bool {
    text.subrange(0, BASIN_CODE_END as int) == seq![UPPER_S, UPPER_H]
}

/// Line `n` bears the time stamp of the line before it.
pub open spec fn repeats_stamp(lines: Seq<Seq<u8>>, n: int) -> bool {
    n > 0 && stamp_of(lines[n]) == stamp_of(lines[n - 1])
}

/// The fixes that a run of lines reports. Lines are taken in order and the
/// first one that cannot be read decides the error. A line that repeats the
/// time stamp before it adds nothing, whatever else it holds.
pub open spec fn records_of(lines: Seq<Seq<u8>>, southern: bool) -> Result<
    Seq<FixRecord>,
    BdeckError,
>
    decreases lines.len(),
{
    if lines.len() == 0 {
        Ok(Seq::empty())
    } else {
        let last = lines.len() - 1;
        match records_of(lines.drop_last(), southern) {
            Err(error) => Err(error),
            Ok(earlier) => if lines[last].len() < STAMP_END {
                Err(BdeckError::FieldOutOfBounds)
            } else if repeats_stamp(lines, last) {
                Ok(earlier)
            } else {
                match fix_of_line(lines[last], southern) {
                    Ok(fix) => Ok(earlier.push(fix)),
                    Err(error) => Err(error),
                }
            },
        }
    }
}

/// The name and the fixes that a file records, or the reason for which it
/// cannot be read. A file without room for the name is out of bounds.
pub open spec fn track_of(text: Seq<u8>) -> Result<(Seq<u8>, Seq<FixRecord>), BdeckError> {
    if text.len() < STORM_NUMBER_END {
        Err(BdeckError::FieldOutOfBounds)
    } else {
        match records_of(lines_of(text), is_southern(text)) {
            Ok(fixes) => Ok((atcf_code_of(text), fixes)),
            Err(error) => Err(error),
        }
    }
}

/// Once a run of lines has failed, no further line mends it.
pub proof fn lemma_error_persists(lines: Seq<Seq<u8>>, more: Seq<Seq<u8>>, southern: bool)
    requires
        records_of(lines, southern) is Err,
    ensures
        records_of(lines + more, southern) == records_of(lines, southern),
    decreases more.len(),
{
    if more.len() > 0 {
        lemma_error_persists(lines, more.drop_last(), southern);
        assert((lines + more).drop_last() =~= lines + more.drop_last());
    }
}

/// A line that bears the time stamp of the line before it changes nothing:
/// the fixes, and so the strongest wind and the energy, are those of the
/// file without that line.
pub proof fn lemma_repeated_line_adds_nothing(
    before: Seq<Seq<u8>>,
    line: Seq<u8>,
    repeat: Seq<u8>,
    after: Seq<Seq<u8>>,
    southern: bool,
)
    requires
        line.len() >= STAMP_END,
        repeat.len() >= STAMP_END,
        stamp_of(repeat) == stamp_of(line),
    ensures
        records_of(before + seq![line, repeat] + after, southern) == records_of(
            before + seq![line] + after,
            southern,
        ),
    decreases after.len(),
{
    let with = before + seq![line, repeat] + after;
    let without = before + seq![line] + after;
    if after.len() == 0 {
        assert(with.drop_last() =~= without);
    } else {
        lemma_repeated_line_adds_nothing(before, line, repeat, after.drop_last(), southern);
        assert(with.drop_last() =~= before + seq![line, repeat] + after.drop_last());
        assert(without.drop_last() =~= before + seq![line] + after.drop_last());
    }
}

/// Tells whether two texts are the same, byte for byte.
pub fn same_bytes(left: &[u8], right: &[u8]) -> (same: bool)
    ensures
        same == (left@ == right@),
{
    if left.len() != right.len() {
        return false;
    }
    let mut i: usize = 0;
    while i < left.len()
        invariant
            i <= left.len(),
            left.len() == right.len(),
            forall|k: int| 0 <= k < i ==> left[k] == right[k],
        decreases left.len() - i,
    {
        if left[i] != right[i] {
            return false;
        }
        i = i + 1;
    }
    assert(left@ =~= right@);
    true
}

/// Reads the name of the storm and its fixes from the text of a file.
pub fn extract_records(text: &[u8]) -> (track: Result<Track, BdeckError>)
    ensures
        match track {
            Ok(found) => track_of(text@) == Ok::<(Seq<u8>, Seq<FixRecord>), BdeckError>(
                (found.atcf_code@, found.fixes@),
            ),
            Err(error) => track_of(text@) == Err::<(Seq<u8>, Seq<FixRecord>), BdeckError>(error),
        },
{
    let len: usize = text.len();
    if len < STORM_NUMBER_END {
        return Err(BdeckError::FieldOutOfBounds);
    }
    let southern: bool = text[0] == UPPER_S && text[1] == UPPER_H;
    assert(southern == is_southern(text@)) by {
        let code = text@.subrange(0, BASIN_CODE_END as int);
        if southern {
            assert(code =~= seq![UPPER_S, UPPER_H]);
        }
    }
    let mut atcf_code: Vec<u8> = Vec::new();
    atcf_code.push(text[0]);
    atcf_code.push(text[1]);
    atcf_code.push(text[STORM_NUMBER_START]);
    atcf_code.push(text[STORM_NUMBER_START + 1]);
    assert(atcf_code@ =~= atcf_code_of(text@));
    let mut fixes: Vec<FixRecord> = Vec::new();
    let mut start: usize = 0;
    let mut previous: usize = 0;
    let mut first: bool = true;
    let ghost mut done: Seq<Seq<u8>> = Seq::empty();
    assert(text@.skip(0) =~= text@);
    while start < len
        invariant
            len == text.len(),
            len >= STORM_NUMBER_END,
            start <= len,
            southern == is_southern(text@),
            lines_of(text@) == done + lines_of(text@.skip(start as int)),
            records_of(done, southern) == Ok::<Seq<FixRecord>, BdeckError>(fixes@),
            first == (done.len() == 0),
            !first ==> previous + STAMP_END <= len && stamp_of(done.last()) == text@.subrange(
                previous + STAMP_START,
                previous + STAMP_END,
            ),
        decreases len - start,
    {
        let (end, next): (usize, usize) = next_line(text, start);
        let line: &[u8] = slice_subrange(text, start, end);
        let ghost lines = done.push(line@);
        let ghost rest = lines_of(text@.skip(next as int));
        proof {
            assert(lines.drop_last() =~= done);
            assert(lines_of(text@) =~= lines + rest);
        }
        if line.len() < STAMP_END {
            proof {
                lemma_error_persists(lines, rest, southern);
            }
            return Err(BdeckError::FieldOutOfBounds);
        }
        assert(stamp_of(line@) =~= text@.subrange(start + STAMP_START, start + STAMP_END));
        let repeated: bool = !first && same_bytes(
            slice_subrange(text, previous + STAMP_START, previous + STAMP_END),
            slice_subrange(text, start + STAMP_START, start + STAMP_END),
        );
        if !repeated {
            match decode_line(line, southern) {
                Ok(fix) => {
                    fixes.push(fix);
                },
                Err(error) => {
                    proof {
                        lemma_error_persists(lines, rest, southern);
                    }
                    return Err(error);
                },
            }
        }
        proof {
            done = lines;
        }
        previous = start;
        first = false;
        start = next;
    }
    Ok(Track { atcf_code, fixes })
}

} // verus!
