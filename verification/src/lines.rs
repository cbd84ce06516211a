//! The lines of a text.
//!
//! A line ends with a line feed, or with a carriage return and a line feed.
//! The last line may do without. The line ending is no part of the line.

use vstd::prelude::*;
use crate::ascii::{CARRIAGE_RETURN, LINE_FEED};

verus! {

/// The number of bytes before the first line feed, or the length of the
/// text if it holds none.
pub open spec fn first_newline(text: Seq<u8>) -> int
    decreases text.len(),
{
    if text.len() == 0 || text[0] == LINE_FEED {
        0
    } else {
        1 + first_newline(text.skip(1))
    }
}

/// The line without the carriage return at its end, if it has one.
pub open spec fn without_return(line: Seq<u8>) -> Seq<u8> {
    if line.len() > 0 && line.last() == CARRIAGE_RETURN {
        line.drop_last()
    } else {
        line
    }
}

/// The lines of a text, in order. An empty text has no line.
pub open spec fn lines_of(text: Seq<u8>) -> Seq<Seq<u8>>
    decreases text.len(),
{
    let end = first_newline(text);
    if text.len() == 0 {
        Seq::empty()
    } else if 0 <= end < text.len() {
        seq![without_return(text.take(end))] + lines_of(text.skip(end + 1))
    } else {
        seq![text]
    }
}

/// The first line feed is where a line feed stands and none stands before.
pub proof fn lemma_first_newline(text: Seq<u8>, end: int)
    requires
        0 <= end <= text.len(),
        forall|i: int| 0 <= i < end ==> text[i] != LINE_FEED,
        end < text.len() ==> text[end] == LINE_FEED,
    ensures
        first_newline(text) == end,
    decreases end,
{
    if end > 0 {
        lemma_first_newline(text.skip(1), end - 1);
    }
}

/// Finds the line that starts at `start`: the place where its content ends
/// and the place where the next line starts.
pub fn next_line(text: &[u8], start: usize) -> (bounds: (usize, usize))
    requires
        start < text.len(),
    ensures
        start <= bounds.0 <= bounds.1 <= text.len(),
        start < bounds.1,
        lines_of(text@.skip(start as int)) == seq![
            text@.subrange(start as int, bounds.0 as int),
        ] + lines_of(text@.skip(bounds.1 as int)),
{
    let len: usize = text.len();
    let mut end: usize = start;
    while end < len && text[end] != LINE_FEED
        invariant
            start <= end <= len,
            len == text.len(),
            forall|i: int| start <= i < end ==> text[i] != LINE_FEED,
        decreases len - end,
    {
        end = end + 1;
    }
    let ghost rest = text@.skip(start as int);
    proof {
        lemma_first_newline(rest, end - start);
    }
    if end == len {
        (len, len)
    } else {
        assert(rest.take(end - start) =~= text@.subrange(start as int, end as int));
        assert(rest.skip(end - start + 1) =~= text@.skip(end + 1));
        if end > start && text[end - 1] == CARRIAGE_RETURN {
            assert(text@.subrange(start as int, end as int).drop_last() =~= text@.subrange(
                start as int,
                end - 1,
            ));
            (end - 1, end + 1)
        } else {
            (end, end + 1)
        }
    }
}

} // verus!
