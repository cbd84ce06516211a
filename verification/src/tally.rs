//! Sums over the fixes of a track: the energy of a year, of a basin, or of
//! both, and the strongest wind.

use vstd::prelude::*;
use crate::basin::Basin;
use crate::eligibility::{fix_basin, fix_energy};
use crate::record::FixRecord;

verus! {

/// The fix belongs to the year and lies in the basin, where one is asked
/// for.
pub open spec fn counts_in(fix: FixRecord, year: Option<i32>, basin: Option<Basin>) -> bool {
    &&& year matches Some(wanted) ==> fix.year == wanted
    &&& basin matches Some(wanted) ==> fix_basin(fix) == wanted
}

/// What one fix adds to the energy of a year and a basin.
pub open spec fn share_of(fix: FixRecord, year: Option<i32>, basin: Option<Basin>) -> int {
    if counts_in(fix, year, basin) {
        fix_energy(fix)
    } else {
        0
    }
}

/// The energy of the fixes that belong to `year` and lie in `basin`. With
/// `None` for the year, or for the basin, all years, or all basins, count.
pub open spec fn energy_in(fixes: Seq<FixRecord>, year: Option<i32>, basin: Option<Basin>) -> int
    decreases fixes.len(),
{
    if fixes.len() == 0 {
        0
    } else {
        energy_in(fixes.drop_last(), year, basin) + share_of(fixes.last(), year, basin)
    }
}

/// The strongest wind among the fixes, whether they count towards the
/// energy or not; zero where there is no fix.
pub open spec fn peak_wind(fixes: Seq<FixRecord>) -> int
    decreases fixes.len(),
{
    if fixes.len() == 0 {
        0
    } else {
        let earlier = peak_wind(fixes.drop_last());
        if fixes.last().wind_knots > earlier {
            fixes.last().wind_knots as int
        } else {
            earlier
        }
    }
}

/// The years to which the fixes belong.
pub open spec fn years_of(fixes: Seq<FixRecord>) -> Set<i32> {
    Set::new(|year: i32| exists|i: int| 0 <= i < fixes.len() && (#[trigger] fixes[i]).year == year)
}

/// A fix adds nothing, or the square of 35 knots at the least.
pub proof fn lemma_fix_energy_bounds(fix: FixRecord)
    ensures
        fix_energy(fix) == 0 || fix_energy(fix) >= 1225,
{
    let knots = fix.wind_knots as int;
    if knots >= 35 {
        assert(knots * knots >= 1225) by (nonlinear_arith)
            requires
                knots >= 35,
        ;
    }
}

/// No sum of energies is negative.
pub proof fn lemma_energy_not_negative(
    fixes: Seq<FixRecord>,
    year: Option<i32>,
    basin: Option<Basin>,
)
    ensures
        energy_in(fixes, year, basin) >= 0,
    decreases fixes.len(),
{
    if fixes.len() > 0 {
        lemma_energy_not_negative(fixes.drop_last(), year, basin);
        lemma_fix_energy_bounds(fixes.last());
    }
}

/// The energy of a track is that of its first part and that of the rest.
pub proof fn lemma_energy_of_joined(
    first: Seq<FixRecord>,
    second: Seq<FixRecord>,
    year: Option<i32>,
    basin: Option<Basin>,
)
    ensures
        energy_in(first + second, year, basin) == energy_in(first, year, basin) + energy_in(
            second,
            year,
            basin,
        ),
    decreases second.len(),
{
    if second.len() > 0 {
        lemma_energy_of_joined(first, second.drop_last(), year, basin);
        assert((first + second).drop_last() =~= first + second.drop_last());
    }
}

/// The first fixes of a track never hold more energy than all of them.
pub proof fn lemma_energy_only_grows(
    fixes: Seq<FixRecord>,
    n: int,
    year: Option<i32>,
    basin: Option<Basin>,
)
    requires
        0 <= n <= fixes.len(),
    ensures
        energy_in(fixes.take(n), year, basin) <= energy_in(fixes, year, basin),
{
    lemma_energy_of_joined(fixes.take(n), fixes.skip(n), year, basin);
    lemma_energy_not_negative(fixes.skip(n), year, basin);
    assert(fixes.take(n) + fixes.skip(n) =~= fixes);
}

/// The energies of the five basins add up to the energy of all basins.
pub proof fn lemma_basins_share_the_energy(fixes: Seq<FixRecord>, year: Option<i32>)
    ensures
        energy_in(fixes, year, Some(Basin::WPAC)) + energy_in(fixes, year, Some(Basin::NIO))
            + energy_in(fixes, year, Some(Basin::SHEM)) + energy_in(fixes, year, Some(Basin::EPAC))
            + energy_in(fixes, year, Some(Basin::ATL)) == energy_in(fixes, year, None),
    decreases fixes.len(),
{
    if fixes.len() > 0 {
        lemma_basins_share_the_energy(fixes.drop_last(), year);
    }
}

/// The years of a track are those of its first part and those of the rest.
pub proof fn lemma_years_of_joined(first: Seq<FixRecord>, second: Seq<FixRecord>)
    ensures
        years_of(first + second) == years_of(first).union(years_of(second)),
{
    let joined = first + second;
    assert forall|year: i32| years_of(joined).contains(year) == (years_of(first).contains(year)
        || years_of(second).contains(year)) by {
        if years_of(joined).contains(year) {
            let i = choose|i: int| 0 <= i < joined.len() && (#[trigger] joined[i]).year == year;
            if i < first.len() {
                assert(first[i].year == year);
            } else {
                assert(second[i - first.len()].year == year);
            }
        }
        if years_of(first).contains(year) {
            let i = choose|i: int| 0 <= i < first.len() && (#[trigger] first[i]).year == year;
            assert(joined[i].year == year);
        }
        if years_of(second).contains(year) {
            let i = choose|i: int| 0 <= i < second.len() && (#[trigger] second[i]).year == year;
            assert(joined[first.len() + i].year == year);
        }
    }
}

} // verus!
