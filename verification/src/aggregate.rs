//! The energy of a storm, and the account that is kept of every year.
//!
//! The yearly account maps a season to the energy of its basins. A storm is
//! added to it as a whole: where one of the sums would no longer fit, the
//! storm is refused and the run ends.

use std::collections::HashMap;
use vstd::prelude::*;
use crate::basin::{get_basin, Basin};
use crate::eligibility::energy_of;
use crate::energy::PerBasinACE;
use crate::error::BdeckError;
use crate::record::FixRecord;
use crate::tally::{
    energy_in, lemma_basins_share_the_energy, lemma_energy_only_grows, lemma_years_of_joined,
    peak_wind, years_of,
};

verus! {

broadcast use vstd::std_specs::hash::group_hash_axioms;

/// What is known of a storm once its file has been read.
#[derive(Debug)]
pub struct StormStats {
    /// The basin code followed by the storm number.
    pub atcf_code: Vec<u8>,
    /// The strongest wind of any fix, in knots.
    pub max_wind: i32,
    /// The energy of the storm in each basin.
    pub ace: PerBasinACE,
}

/// Every year of the account is well formed.
pub open spec fn accounts_wf(yearly: Map<i32, PerBasinACE>) -> bool {
    forall|year: i32| yearly.contains_key(year) ==> (#[trigger] yearly[year]).wf()
}

/// The energy that the account holds for a year and a basin; zero for a
/// year that it does not know.
pub open spec fn credited(yearly: Map<i32, PerBasinACE>, year: i32, basin: Basin) -> int {
    if yearly.contains_key(year) {
        yearly[year].energy(basin)
    } else {
        0
    }
}

/// The energy that the account holds for a year.
pub open spec fn year_total(yearly: Map<i32, PerBasinACE>, year: i32) -> int {
    if yearly.contains_key(year) {
        yearly[year].total()
    } else {
        0
    }
}

/// The storm can be added: its own energy, and the energy of every year
/// with the storm in it, are still an `i32`.
pub open spec fn fits(yearly: Map<i32, PerBasinACE>, fixes: Seq<FixRecord>) -> bool {
    &&& energy_in(fixes, None, None) <= i32::MAX
    &&& forall|year: i32|
        year_total(yearly, year) + #[trigger] energy_in(fixes, Some(year), None) <= i32::MAX
}

/// `after` is `before` with the storm added: it knows the years of the
/// storm besides its own, and each year and basin has gained the energy of
/// the fixes that belong there.
pub open spec fn absorbed(
    before: Map<i32, PerBasinACE>,
    fixes: Seq<FixRecord>,
    after: Map<i32, PerBasinACE>,
) -> bool {
    &&& after.dom() == before.dom().union(years_of(fixes))
    &&& forall|year: i32, basin: Basin| #[trigger]
        credited(after, year, basin) == credited(before, year, basin) + energy_in(
            fixes,
            Some(year),
            Some(basin),
        )
}

/// The statistics are those of the storm with this name and these fixes.
pub open spec fn summarizes(stats: StormStats, atcf_code: Seq<u8>, fixes: Seq<FixRecord>) -> bool {
    &&& stats.atcf_code@ == atcf_code
    &&& stats.max_wind == peak_wind(fixes)
    &&& stats.ace.wf()
    &&& forall|basin: Basin| #[trigger]
        stats.ace.energy(basin) == energy_in(fixes, None, Some(basin))
}

/// A year gains, over all basins, the energy of the fixes that belong to it.
pub proof fn lemma_year_gains(
    before: Map<i32, PerBasinACE>,
    fixes: Seq<FixRecord>,
    after: Map<i32, PerBasinACE>,
    year: i32,
)
    requires
        absorbed(before, fixes, after),
    ensures
        year_total(after, year) == year_total(before, year) + energy_in(fixes, Some(year), None),
{
    lemma_basins_share_the_energy(fixes, Some(year));
    assert(credited(after, year, Basin::WPAC) == credited(before, year, Basin::WPAC) + energy_in(
        fixes,
        Some(year),
        Some(Basin::WPAC),
    ));
    assert(credited(after, year, Basin::NIO) == credited(before, year, Basin::NIO) + energy_in(
        fixes,
        Some(year),
        Some(Basin::NIO),
    ));
    assert(credited(after, year, Basin::SHEM) == credited(before, year, Basin::SHEM) + energy_in(
        fixes,
        Some(year),
        Some(Basin::SHEM),
    ));
    assert(credited(after, year, Basin::EPAC) == credited(before, year, Basin::EPAC) + energy_in(
        fixes,
        Some(year),
        Some(Basin::EPAC),
    ));
    assert(credited(after, year, Basin::ATL) == credited(before, year, Basin::ATL) + energy_in(
        fixes,
        Some(year),
        Some(Basin::ATL),
    ));
}

/// An account that holds, basin by basin, the energy of some fixes holds
/// their whole energy in total.
pub proof fn lemma_account_total(ace: PerBasinACE, fixes: Seq<FixRecord>)
    requires
        forall|basin: Basin| #[trigger] ace.energy(basin) == energy_in(fixes, None, Some(basin)),
    ensures
        ace.total() == energy_in(fixes, None, None),
{
    lemma_basins_share_the_energy(fixes, None);
    assert(ace.energy(Basin::WPAC) == energy_in(fixes, None, Some(Basin::WPAC)));
    assert(ace.energy(Basin::NIO) == energy_in(fixes, None, Some(Basin::NIO)));
    assert(ace.energy(Basin::SHEM) == energy_in(fixes, None, Some(Basin::SHEM)));
    assert(ace.energy(Basin::EPAC) == energy_in(fixes, None, Some(Basin::EPAC)));
    assert(ace.energy(Basin::ATL) == energy_in(fixes, None, Some(Basin::ATL)));
}

/// The energies that a storm holds in the five basins add up to the energy
/// of all its fixes.
pub proof fn lemma_storm_total(stats: StormStats, atcf_code: Seq<u8>, fixes: Seq<FixRecord>)
    requires
        summarizes(stats, atcf_code, fixes),
    ensures
        stats.ace.total() == energy_in(fixes, None, None),
{
    lemma_account_total(stats.ace, fixes);
}

/// Opens the account of `year`, if it has none yet, and credits `energy` to
/// `basin` there, unless the year would then hold more than an `i32`: in
/// that case nothing changes and the answer is `false`.
fn credit_year(
    accounts: &mut HashMap<i32, PerBasinACE>,
    year: i32,
    basin: Basin,
    energy: i32,
) -> (done: bool)
    requires
        accounts_wf(old(accounts)@),
        energy >= 0,
    ensures
        accounts_wf(final(accounts)@),
        done == (year_total(old(accounts)@, year) + energy <= i32::MAX),
        !done ==> final(accounts)@ == old(accounts)@,
        done ==> final(accounts)@.dom() == old(accounts)@.dom().insert(year),
        done ==> forall|other: i32, place: Basin| #[trigger]
            credited(final(accounts)@, other, place) == credited(old(accounts)@, other, place)
                + if other == year && place == basin {
                energy as int
            } else {
                0int
            },
{
    let mut account: PerBasinACE = match accounts.get(&year) {
        Some(account) => *account,
        None => PerBasinACE::new(),
    };
    if energy > i32::MAX - account.sum() {
        return false;
    }
    account.update_ace(&basin, energy);
    accounts.insert(year, account);
    true
}

/// Adds a storm to the yearly account and draws up its own statistics.
///
/// Every fix raises the strongest wind and opens the account of its year.
/// A fix that counts credits its energy to its basin, for the storm and for
/// its year.
pub fn accumulate(
    atcf_code: Vec<u8>,
    fixes: &Vec<FixRecord>,
    yearly: HashMap<i32, PerBasinACE>,
) -> (outcome: Result<(StormStats, HashMap<i32, PerBasinACE>), BdeckError>)
    requires
        accounts_wf(yearly@),
    ensures
        match outcome {
            Ok((stats, updated)) => {
                &&& fits(yearly@, fixes@)
                &&& summarizes(stats, atcf_code@, fixes@)
                &&& accounts_wf(updated@)
                &&& absorbed(yearly@, fixes@, updated@)
            },
            Err(error) => error == BdeckError::EnergyOverflow && !fits(yearly@, fixes@),
        },
{
    let ghost before = yearly@;
    let mut accounts: HashMap<i32, PerBasinACE> = yearly;
    let mut ace: PerBasinACE = PerBasinACE::new();
    let mut max_wind: i32 = 0;
    let mut i: usize = 0;
    assert(accounts@.dom() =~= before.dom().union(years_of(fixes@.take(0))));
    while i < fixes.len()
        invariant
            i <= fixes.len(),
            before == yearly@,
            accounts_wf(before),
            accounts_wf(accounts@),
            ace.wf(),
            max_wind == peak_wind(fixes@.take(i as int)),
            forall|basin: Basin| #[trigger]
                ace.energy(basin) == energy_in(fixes@.take(i as int), None, Some(basin)),
            absorbed(before, fixes@.take(i as int), accounts@),
        decreases fixes.len() - i,
    {
        let fix: FixRecord = fixes[i];
        let ghost seen = fixes@.take(i as int);
        let ghost next = fixes@.take(i + 1);
        let ghost held = accounts@;
        proof {
            assert(next.drop_last() =~= seen);
            assert(next =~= seen + seq![fix]);
            lemma_years_of_joined(seen, seq![fix]);
            assert(years_of(seq![fix]) =~= set![fix.year]) by {
                assert(seq![fix][0].year == fix.year);
            }
            lemma_account_total(ace, seen);
            lemma_year_gains(before, seen, held, fix.year);
        }
        if fix.wind_knots > max_wind {
            max_wind = fix.wind_knots;
        }
        let energy: i64 = energy_of(&fix);
        if energy > (i32::MAX - ace.sum()) as i64 {
            proof {
                lemma_energy_only_grows(fixes@, i + 1, None, None);
            }
            return Err(BdeckError::EnergyOverflow);
        }
        let basin: Basin = get_basin(fix.latitude, fix.longitude);
        let credit: i32 = energy as i32;
        if !credit_year(&mut accounts, fix.year, basin, credit) {
            proof {
                lemma_energy_only_grows(fixes@, i + 1, Some(fix.year), None);
            }
            return Err(BdeckError::EnergyOverflow);
        }
        ace.update_ace(&basin, credit);
        proof {
            assert(accounts@.dom() =~= before.dom().union(years_of(next)));
            assert forall|year: i32, place: Basin| #[trigger]
                credited(accounts@, year, place) == credited(before, year, place) + energy_in(
                    next,
                    Some(year),
                    Some(place),
                ) by {
                assert(credited(held, year, place) == credited(before, year, place) + energy_in(
                    seen,
                    Some(year),
                    Some(place),
                ));
            }
        }
        i = i + 1;
    }
    proof {
        assert(fixes@.take(fixes.len() as int) =~= fixes@);
        lemma_account_total(ace, fixes@);
        assert forall|year: i32|
            year_total(before, year) + #[trigger] energy_in(fixes@, Some(year), None)
                <= i32::MAX by {
            lemma_year_gains(before, fixes@, accounts@, year);
        }
    }
    Ok((StormStats { atcf_code, max_wind, ace }, accounts))
}

} // verus!
