//! Energy as text.
//!
//! The published index is the energy divided by ten thousand. It is written
//! with four decimals, which is exact: nothing is rounded.

use std::collections::HashMap;
use vstd::prelude::*;
use vstd::string::{StrSliceExecFns, StringExecFns};
use crate::energy::PerBasinACE;

verus! {

broadcast use vstd::std_specs::hash::group_hash_axioms;

/// A digit as text. Only the numbers from 0 to 9 are meant.
pub open spec fn digit_text(digit: int) -> Seq<char> {
    if digit == 0 {
        "0"@
    } else if digit == 1 {
        "1"@
    } else if digit == 2 {
        "2"@
    } else if digit == 3 {
        "3"@
    } else if digit == 4 {
        "4"@
    } else if digit == 5 {
        "5"@
    } else if digit == 6 {
        "6"@
    } else if digit == 7 {
        "7"@
    } else if digit == 8 {
        "8"@
    } else {
        "9"@
    }
}

/// A natural number in decimal notation, without leading zeros.
pub open spec fn decimal_text(number: nat) -> Seq<char>
    decreases number,
{
    if number < 10 {
        digit_text(number as int)
    } else {
        decimal_text(number / 10) + digit_text(number as int % 10)
    }
}

/// An energy as the index with four decimals: the ten thousands, a full
/// stop, and the four digits below. Only energies from zero up are meant.
pub open spec fn ace_text(energy: int) -> Seq<char> {
    decimal_text((energy / 10000) as nat) + "."@ + digit_text(energy / 1000 % 10) + digit_text(
        energy / 100 % 10,
    ) + digit_text(energy / 10 % 10) + digit_text(energy % 10)
}

/// The text ends with the suffix.
pub open spec fn ends_with(text: Seq<char>, suffix: Seq<char>) -> bool {
    suffix.len() <= text.len() && text.skip(text.len() - suffix.len()) == suffix
}

/// The text without the suffix, where it ends with it.
pub open spec fn less_suffix(text: Seq<char>, suffix: Seq<char>) -> Seq<char> {
    if ends_with(text, suffix) {
        text.take(text.len() - suffix.len())
    } else {
        text
    }
}

/// One line of a listing, if there is energy to show: the label and the
/// index, followed by `end`.
pub open spec fn entry_text(label: Seq<char>, energy: int, end: Seq<char>) -> Seq<char> {
    if energy > 0 {
        label + ace_text(energy) + end
    } else {
        Seq::empty()
    }
}

/// The basins that hold energy, in the order West Pacific, East and Central
/// Pacific, Atlantic, southern hemisphere, North Indian Ocean. Each entry
/// but that of the North Indian Ocean is followed by the separator.
pub open spec fn listing_text(ace: PerBasinACE, separator: Seq<char>) -> Seq<char> {
    entry_text("WPAC: "@, ace.wpac as int, separator) + entry_text(
        "ECPAC: "@,
        ace.epac as int,
        separator,
    ) + entry_text("ATL: "@, ace.atl as int, separator) + entry_text(
        "SHEM: "@,
        ace.shem as int,
        separator,
    ) + entry_text("NIO: "@, ace.nio as int, Seq::empty())
}

/// The listing, less one separator at its very end.
pub open spec fn summary_text(ace: PerBasinACE, separator: Seq<char>) -> Seq<char> {
    less_suffix(listing_text(ace, separator), separator)
}

/// The text of a digit.
fn digit_str(digit: u32) -> (text: &'static str)
    requires
        digit < 10,
    ensures
        text@ == digit_text(digit as int),
{
    if digit == 0 {
        "0"
    } else if digit == 1 {
        "1"
    } else if digit == 2 {
        "2"
    } else if digit == 3 {
        "3"
    } else if digit == 4 {
        "4"
    } else if digit == 5 {
        "5"
    } else if digit == 6 {
        "6"
    } else if digit == 7 {
        "7"
    } else if digit == 8 {
        "8"
    } else {
        "9"
    }
}

/// Writes a number in decimal notation at the end of `out`.
fn push_decimal(out: &mut String, number: u32)
    ensures
        final(out)@ == old(out)@ + decimal_text(number as nat),
    decreases number,
{
    if number >= 10 {
        push_decimal(out, number / 10);
    }
    out.append(digit_str(number % 10));
}

/// Writes an energy as the index with four decimals.
pub fn format_ace(energy: i32) -> (text: String)
    requires
        energy >= 0,
    ensures
        text@ == ace_text(energy as int),
{
    let value: u32 = energy as u32;
    let mut text: String = String::new();
    push_decimal(&mut text, value / 10000);
    text.append(".");
    text.append(digit_str(value / 1000 % 10));
    text.append(digit_str(value / 100 % 10));
    text.append(digit_str(value / 10 % 10));
    text.append(digit_str(value % 10));
    text
}

/// Removes the suffix from the end of the text, if it stands there.
pub fn strip_suffix(text: String, suffix: &str) -> (stripped: String)
    ensures
        stripped@ == less_suffix(text@, suffix@),
{
    let length: usize = text.as_str().unicode_len();
    let width: usize = suffix.unicode_len();
    if width > length {
        return text;
    }
    let offset: usize = length - width;
    let mut i: usize = 0;
    while i < width
        invariant
            i <= width,
            offset + width == length,
            length == text@.len(),
            width == suffix@.len(),
            forall|k: int| 0 <= k < i ==> text@[offset + k] == suffix@[k],
        decreases width - i,
    {
        if text.as_str().get_char(offset + i) != suffix.get_char(i) {
            return text;
        }
        i = i + 1;
    }
    assert(text@.skip(offset as int) =~= suffix@);
    String::from_str(text.as_str().substring_char(0, offset))
}

/// Writes one entry of a listing at the end of `out`.
fn push_entry(out: &mut String, label: &str, energy: i32, end: &str)
    ensures
        final(out)@ == old(out)@ + entry_text(label@, energy as int, end@),
{
    if energy > 0 {
        out.append(label);
        let index: String = format_ace(energy);
        out.append(index.as_str());
        out.append(end);
    }
}

impl PerBasinACE {
    /// Lists the basins that hold energy, with the separator between them.
    pub fn summarize(&self, separator: &str) -> (text: String)
        ensures
            text@ == summary_text(*self, separator@),
    {
        let mut text: String = String::new();
        push_entry(&mut text, "WPAC: ", self.wpac, separator);
        push_entry(&mut text, "ECPAC: ", self.epac, separator);
        push_entry(&mut text, "ATL: ", self.atl, separator);
        push_entry(&mut text, "SHEM: ", self.shem, separator);
        proof {
            reveal_strlit("");
        }
        push_entry(&mut text, "NIO: ", self.nio, "");
        strip_suffix(text, separator)
    }
}

/// The year has an account, and the account holds energy.
pub open spec fn has_energy(yearly: Map<i32, PerBasinACE>, year: i32) -> bool {
    yearly.contains_key(year) && yearly[year].total() > 0
}

/// The years that a report lists: those whose account holds energy, each
/// once, in the order in which the map hands them out.
pub fn years_with_energy(yearly: &HashMap<i32, PerBasinACE>) -> (years: Vec<i32>)
    ensures
        years@.no_duplicates(),
        forall|year: i32| years@.contains(year) <==> has_energy(yearly@, year),
{
    let mut years: Vec<i32> = Vec::new();
    for year in walk: yearly.keys()
        invariant
            walk.seq().unref().to_set() == yearly@.dom(),
            walk.seq().no_duplicates(),
            walk.index() <= walk.seq().len(),
            years@.no_duplicates(),
            forall|j: int|
                0 <= j < years.len() ==> has_energy(yearly@, #[trigger] years[j]) && exists|k: int|
                    0 <= k < walk.index() && *(#[trigger] walk.seq()[k]) == years[j],
            forall|k: int|
                0 <= k < walk.index() && has_energy(yearly@, *(#[trigger] walk.seq()[k]))
                    ==> years@.contains(*walk.seq()[k]),
            walk.index() == walk.seq().len() ==> forall|other: i32|
                has_energy(yearly@, other) ==> years@.contains(other),
    {
        let ghost listed = years@;
        let ghost at = walk.index();
        assert(*year == *walk.seq()[at]);
        assert(yearly@.contains_key(*year)) by {
            assert(walk.seq().unref()[at] == *year);
            assert(walk.seq().unref().to_set().contains(*year));
        }
        match yearly.get(year) {
            Some(account) => {
                if account.has_energy() {
                    assert(!listed.contains(*year)) by {
                        if listed.contains(*year) {
                            let j = choose|j: int| 0 <= j < listed.len() && listed[j] == *year;
                            let k = choose|k: int|
                                0 <= k < at && *(#[trigger] walk.seq()[k]) == listed[j];
                            assert(walk.seq()[k] == walk.seq()[at]);
                        }
                    }
                    years.push(*year);
                    assert forall|j: int| 0 <= j < years.len() implies has_energy(
                        yearly@,
                        #[trigger] years[j],
                    ) && exists|k: int|
                        0 <= k < at + 1 && *(#[trigger] walk.seq()[k]) == years[j] by {
                        if j < listed.len() {
                            assert(years[j] == listed[j]);
                            let k = choose|k: int|
                                0 <= k < at && *(#[trigger] walk.seq()[k]) == listed[j];
                            assert(*walk.seq()[k] == years[j]);
                        } else {
                            assert(*walk.seq()[at] == years[j]);
                        }
                    }
                    assert forall|k: int|
                        0 <= k < at + 1 && has_energy(
                            yearly@,
                            *(#[trigger] walk.seq()[k]),
                        ) implies years@.contains(*walk.seq()[k]) by {
                        if k < at {
                            let j = choose|j: int|
                                0 <= j < listed.len() && listed[j] == *walk.seq()[k];
                            assert(years@[j] == *walk.seq()[k]);
                        } else {
                            assert(years@[listed.len() as int] == *walk.seq()[k]);
                        }
                    }
                }
            },
            None => {},
        }
        assert forall|other: i32| at + 1 == walk.seq().len() && has_energy(
            yearly@,
            other,
        ) implies years@.contains(other) by {
            assert(walk.seq().unref().to_set().contains(other));
            let k = choose|k: int|
                0 <= k < walk.seq().unref().len() && walk.seq().unref()[k] == other;
            assert(*walk.seq()[k] == other);
        }
    }
    assert forall|year: i32| years@.contains(year) implies has_energy(yearly@, year) by {
        let j = choose|j: int| 0 <= j < years.len() && years[j] == year;
        assert(has_energy(yearly@, years[j]));
    }
    years
}

} // verus!
