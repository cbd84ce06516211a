//! A whole run: the files of many storms, read one after the other into one
//! yearly account.

use std::collections::HashMap;
use vstd::prelude::*;
use crate::aggregate::{
    absorbed, accounts_wf, accumulate, credited, fits, lemma_year_gains, summarizes, year_total,
    StormStats,
};
use crate::basin::Basin;
use crate::energy::PerBasinACE;
use crate::error::BdeckError;
use crate::record::FixRecord;
use crate::tally::{energy_in, lemma_energy_of_joined, lemma_years_of_joined, years_of};
use crate::track::{atcf_code_of, extract_records, track_of, Track};

verus! {

/// The texts of the files.
pub open spec fn texts_of(files: Seq<Vec<u8>>) -> Seq<Seq<u8>> {
    Seq::new(files.len(), |i: int| files[i]@)
}

/// The fixes that a file records; none where it cannot be read.
pub open spec fn fixes_of(text: Seq<u8>) -> Seq<FixRecord> {
    match track_of(text) {
        Ok((_, fixes)) => fixes,
        Err(_) => Seq::empty(),
    }
}

/// The fixes of all the files, in the order of the files.
pub open spec fn all_fixes(texts: Seq<Seq<u8>>) -> Seq<FixRecord>
    decreases texts.len(),
{
    if texts.len() == 0 {
        Seq::empty()
    } else {
        all_fixes(texts.drop_last()) + fixes_of(texts.last())
    }
}

/// A storm can follow the storms before it: its own energy, and the energy
/// of every year with the storm in it, are still an `i32`.
pub open spec fn fits_after(earlier: Seq<FixRecord>, fixes: Seq<FixRecord>) -> bool {
    &&& energy_in(fixes, None, None) <= i32::MAX
    &&& forall|year: i32| #[trigger] energy_in(earlier + fixes, Some(year), None) <= i32::MAX
}

/// The reason for which a run is given up, if it is. Files are taken in
/// order, and the first one that fails decides: it cannot be read, or its
/// storm cannot follow the storms before it.
pub open spec fn first_failure(texts: Seq<Seq<u8>>) -> Option<BdeckError>
    decreases texts.len(),
{
    if texts.len() == 0 {
        None
    } else {
        match first_failure(texts.drop_last()) {
            Some(error) => Some(error),
            None => match track_of(texts.last()) {
                Err(error) => Some(error),
                Ok((_, fixes)) => if fits_after(all_fixes(texts.drop_last()), fixes) {
                    None
                } else {
                    Some(BdeckError::EnergyOverflow)
                },
            },
        }
    }
}

/// Once a run has failed, no further file mends it.
pub proof fn lemma_failure_persists(texts: Seq<Seq<u8>>, more: Seq<Seq<u8>>)
    requires
        first_failure(texts) is Some,
    ensures
        first_failure(texts + more) == first_failure(texts),
    decreases more.len(),
{
    if more.len() > 0 {
        lemma_failure_persists(texts, more.drop_last());
        assert((texts + more).drop_last() =~= texts + more.drop_last());
    }
}

/// An account that holds exactly the storms before can take the next storm
/// just when that storm can follow them.
pub proof fn lemma_fits_after(
    yearly: Map<i32, PerBasinACE>,
    earlier: Seq<FixRecord>,
    fixes: Seq<FixRecord>,
)
    requires
        absorbed(Map::empty(), earlier, yearly),
    ensures
        fits(yearly, fixes) == fits_after(earlier, fixes),
{
    assert forall|year: i32|
        year_total(yearly, year) + energy_in(fixes, Some(year), None)
            == #[trigger] energy_in(earlier + fixes, Some(year), None) by {
        lemma_year_gains(Map::empty(), earlier, yearly, year);
        lemma_energy_of_joined(earlier, fixes, Some(year), None);
    }
    if fits(yearly, fixes) {
        assert forall|year: i32| #[trigger]
            energy_in(earlier + fixes, Some(year), None) <= i32::MAX by {
            assert(year_total(yearly, year) + energy_in(fixes, Some(year), None) <= i32::MAX);
        }
    }
    if fits_after(earlier, fixes) {
        assert forall|year: i32|
            year_total(yearly, year) + #[trigger] energy_in(
                fixes,
                Some(year),
                None,
            ) <= i32::MAX by {
            assert(energy_in(earlier + fixes, Some(year), None) <= i32::MAX);
        }
    }
}

/// Adding one storm and then another is adding the fixes of both.
pub proof fn lemma_absorbed_in_turn(
    before: Map<i32, PerBasinACE>,
    first: Seq<FixRecord>,
    between: Map<i32, PerBasinACE>,
    second: Seq<FixRecord>,
    after: Map<i32, PerBasinACE>,
)
    requires
        absorbed(before, first, between),
        absorbed(between, second, after),
    ensures
        absorbed(before, first + second, after),
{
    lemma_years_of_joined(first, second);
    assert(after.dom() =~= before.dom().union(years_of(first + second)));
    assert forall|year: i32, basin: Basin| #[trigger]
        credited(after, year, basin) == credited(
            before,
            year,
            basin,
        ) + energy_in(first + second, Some(year), Some(basin)) by {
        lemma_energy_of_joined(first, second, Some(year), Some(basin));
    }
}

/// What the storms of a run add to a year and a basin, storm by storm.
pub open spec fn run_energy(texts: Seq<Seq<u8>>, year: Option<i32>, basin: Option<Basin>) -> int
    decreases texts.len(),
{
    if texts.len() == 0 {
        0
    } else {
        run_energy(texts.drop_last(), year, basin) + energy_in(fixes_of(texts.last()), year, basin)
    }
}

/// The energy of all the fixes of a run is the sum of what its storms add.
pub proof fn lemma_run_energy(texts: Seq<Seq<u8>>, year: Option<i32>, basin: Option<Basin>)
    ensures
        energy_in(all_fixes(texts), year, basin) == run_energy(texts, year, basin),
    decreases texts.len(),
{
    if texts.len() > 0 {
        lemma_run_energy(texts.drop_last(), year, basin);
        lemma_energy_of_joined(all_fixes(texts.drop_last()), fixes_of(texts.last()), year, basin);
    }
}

/// The total that the account of a run holds for a year is the sum of what
/// the storms of the run add to that year.
pub proof fn lemma_year_total_of_run(
    texts: Seq<Seq<u8>>,
    yearly: Map<i32, PerBasinACE>,
    year: i32,
)
    requires
        absorbed(Map::empty(), all_fixes(texts), yearly),
    ensures
        year_total(yearly, year) == run_energy(texts, Some(year), None),
{
    lemma_year_gains(Map::empty(), all_fixes(texts), yearly, year);
    lemma_run_energy(texts, Some(year), None);
}

/// Reads the files of a run, given as their texts, and returns the
/// statistics of each storm, in the order of the files, with the yearly
/// account of all of them.
pub fn process_bdeck_files(files: &Vec<Vec<u8>>) -> (outcome: Result<
    (Vec<StormStats>, HashMap<i32, PerBasinACE>),
    BdeckError,
>)
    ensures
        match outcome {
            Ok((storms, yearly)) => {
                &&& first_failure(texts_of(files@)) is None
                &&& storms.len() == files.len()
                &&& forall|i: int|
                    0 <= i < files.len() ==> summarizes(
                        #[trigger] storms[i],
                        atcf_code_of(files[i]@),
                        fixes_of(files[i]@),
                    )
                &&& accounts_wf(yearly@)
                &&& absorbed(Map::empty(), all_fixes(texts_of(files@)), yearly@)
            },
            Err(error) => first_failure(texts_of(files@)) == Some(error),
        },
{
    let ghost texts = texts_of(files@);
    let mut storms: Vec<StormStats> = Vec::new();
    let mut yearly: HashMap<i32, PerBasinACE> = HashMap::new();
    let mut i: usize = 0;
    proof {
        assert(yearly@.dom() =~= Map::<i32, PerBasinACE>::empty().dom().union(
            years_of(all_fixes(texts.take(0))),
        ));
    }
    while i < files.len()
        invariant
            i <= files.len(),
            texts == texts_of(files@),
            first_failure(texts.take(i as int)) is None,
            storms.len() == i,
            forall|k: int|
                0 <= k < i ==> summarizes(
                    #[trigger] storms[k],
                    atcf_code_of(files[k]@),
                    fixes_of(files[k]@),
                ),
            accounts_wf(yearly@),
            absorbed(Map::empty(), all_fixes(texts.take(i as int)), yearly@),
        decreases files.len() - i,
    {
        let ghost earlier = texts.take(i as int);
        let ghost read = texts.take(i + 1);
        let ghost held = yearly@;
        proof {
            assert(read.drop_last() =~= earlier);
            assert(read + texts.skip(i + 1) =~= texts);
        }
        match extract_records(files[i].as_slice()) {
            Err(error) => {
                proof {
                    lemma_failure_persists(read, texts.skip(i + 1));
                }
                return Err(error);
            },
            Ok(track) => {
                let Track { atcf_code, fixes } = track;
                proof {
                    lemma_fits_after(held, all_fixes(earlier), fixes@);
                }
                match accumulate(atcf_code, &fixes, yearly) {
                    Err(error) => {
                        proof {
                            lemma_failure_persists(read, texts.skip(i + 1));
                        }
                        return Err(error);
                    },
                    Ok((stats, updated)) => {
                        proof {
                            lemma_absorbed_in_turn(
                                Map::empty(),
                                all_fixes(earlier),
                                held,
                                fixes@,
                                updated@,
                            );
                        }
                        storms.push(stats);
                        yearly = updated;
                    },
                }
            },
        }
        i = i + 1;
    }
    assert(texts.take(files.len() as int) =~= texts);
    Ok((storms, yearly))
}

} // verus!
