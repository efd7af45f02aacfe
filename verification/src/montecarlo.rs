//! The Monte Carlo driver: one randomly sampled trial, and the orchestrator
//! that repeats it independently and collects the outcomes.

use vstd::prelude::*;
use vstd::seq_lib::group_to_multiset_ensures;
use rand::rngs::ThreadRng;
use crate::params::{valid_series, Params};
use crate::policy::TrialState;
use crate::report::{percentile_index, percentile_report, sort_outcomes, sorted};
use crate::sampler::{new_rng, sample_index};
use crate::trial::{
    draws_in_range, lemma_state_after_agrees, lemma_state_after_fits, state_after, trial_outcome,
    valid_draws,
};

verus! {

/// An outcome one trial can produce: some pair of in-range draw sequences
/// yields it. Every result of `run_trial` is of this kind, whatever the
/// generator returned.
pub open spec fn achievable_outcome(
    params: Params,
    stocks: Seq<i64>,
    bonds: Seq<i64>,
    r: u128,
) -> bool {
    exists|si: Seq<usize>, bi: Seq<usize>|
        valid_draws(si, params.horizon as int, stocks.len() as int)
            && valid_draws(bi, params.horizon as int, bonds.len() as int)
            && r == trial_outcome(params, stocks, bonds, si, bi)
}

/// Runs one trial, drawing one stock index and one bond index per year
/// uniformly from the series via `rng`: the returned outcome is the one the
/// drawn sequences determine.
pub fn run_trial(params: &Params, stocks: &Vec<i64>, bonds: &Vec<i64>, rng: &mut ThreadRng) -> (r:
    u128)
    requires
        params.valid(),
        valid_series(stocks@),
        valid_series(bonds@),
    ensures
        achievable_outcome(*params, stocks@, bonds@, r),
{
    let mut st = TrialState::init(params);
    let ghost mut gsi: Seq<usize> = Seq::empty();
    let ghost mut gbi: Seq<usize> = Seq::empty();
    let mut year: usize = 0;
    while year < params.horizon
        invariant
            params.valid(),
            valid_series(stocks@),
            valid_series(bonds@),
            0 <= year <= params.horizon,
            gsi.len() == year,
            gbi.len() == year,
            draws_in_range(gsi, year as int, stocks@.len() as int),
            draws_in_range(gbi, year as int, bonds@.len() as int),
            st@ == state_after(*params, stocks@, bonds@, gsi, gbi, year as int),
        decreases params.horizon - year,
    {
        proof {
            lemma_state_after_fits(*params, stocks@, bonds@, gsi, gbi, year as int);
        }
        let i = sample_index(rng, stocks.len());
        let j = sample_index(rng, bonds.len());
        let rs = stocks[i];
        let rb = bonds[j];
        st.step(params, year, rs, rb);
        proof {
            lemma_state_after_agrees(
                *params,
                stocks@,
                bonds@,
                gsi.push(i),
                gbi.push(j),
                gsi,
                gbi,
                year as int,
            );
            gsi = gsi.push(i);
            gbi = gbi.push(j);
        }
        year += 1;
    }
    let r = if st.depleted {
        0
    } else {
        st.captured
    };
    proof {
        assert(valid_draws(gsi, params.horizon as int, stocks@.len() as int)
            && valid_draws(gbi, params.horizon as int, bonds@.len() as int)
            && r == trial_outcome(*params, stocks@, bonds@, gsi, gbi));
    }
    r
}

/// Invokes the trial runner exactly `trial_count` times, each trial with
/// its own draws, and collects every outcome.
pub fn run_simulations(params: &Params, stocks: &Vec<i64>, bonds: &Vec<i64>) -> (outcomes: Vec<
    u128,
>)
    requires
        params.valid(),
        valid_series(stocks@),
        valid_series(bonds@),
    ensures
        outcomes@.len() == params.trial_count,
        forall|t: int|
            0 <= t < outcomes@.len() ==> achievable_outcome(
                *params,
                stocks@,
                bonds@,
                #[trigger] outcomes@[t],
            ),
{
    let mut rng = new_rng();
    let mut outcomes: Vec<u128> = Vec::new();
    let mut t: usize = 0;
    while t < params.trial_count
        invariant
            params.valid(),
            valid_series(stocks@),
            valid_series(bonds@),
            0 <= t <= params.trial_count,
            outcomes@.len() == t,
            forall|k: int|
                0 <= k < outcomes@.len() ==> achievable_outcome(
                    *params,
                    stocks@,
                    bonds@,
                    #[trigger] outcomes@[k],
                ),
        decreases params.trial_count - t,
    {
        let r = run_trial(params, stocks, bonds, &mut rng);
        outcomes.push(r);
        t += 1;
    }
    outcomes
}

/// The report pairs `percentiles` with the nearest-rank values of the
/// sorted sample `outcomes`.
pub open spec fn report_of_sorted(
    outcomes: Seq<u128>,
    percentiles: Seq<u64>,
    report: Seq<(u64, u128)>,
) -> bool {
    &&& report.len() == percentiles.len()
    &&& forall|k: int|
        0 <= k < report.len() ==> (#[trigger] report[k]).0 == percentiles[k] && report[k].1
            == outcomes[percentile_index(percentiles[k] as int, outcomes.len() as int)]
}

/// The whole batch: runs `trial_count` independent trials, sorts their
/// outcomes ascending, and reads off the requested percentiles. The result
/// is the report of some sorted sequence of exactly `trial_count` outcomes,
/// each one achievable by a pair of in-range draw sequences.
pub fn simulate_percentiles(
    params: &Params,
    stocks: &Vec<i64>,
    bonds: &Vec<i64>,
    percentiles: &Vec<u64>,
) -> (report: Vec<(u64, u128)>)
    requires
        params.valid(),
        valid_series(stocks@),
        valid_series(bonds@),
    ensures
        exists|outcomes: Seq<u128>|
            #![auto]
            outcomes.len() == params.trial_count && sorted(outcomes) && (forall|t: int|
                0 <= t < outcomes.len() ==> achievable_outcome(
                    *params,
                    stocks@,
                    bonds@,
                    #[trigger] outcomes[t],
                )) && report_of_sorted(outcomes, percentiles@, report@),
{
    let mut outcomes = run_simulations(params, stocks, bonds);
    let ghost collected = outcomes@;
    sort_outcomes(&mut outcomes);
    proof {
        broadcast use group_to_multiset_ensures;

        assert forall|t: int| 0 <= t < outcomes@.len() implies achievable_outcome(
            *params,
            stocks@,
            bonds@,
            #[trigger] outcomes@[t],
        ) by {
            assert(outcomes@.contains(outcomes@[t]));
            assert(collected.to_multiset().count(outcomes@[t]) > 0);
            assert(collected.contains(outcomes@[t]));
            let j = choose|j: int| 0 <= j < collected.len() && collected[j] == outcomes@[t];
            assert(achievable_outcome(*params, stocks@, bonds@, collected[j]));
        }
    }
    let report = percentile_report(&outcomes, percentiles);
    proof {
        assert(outcomes@.len() == params.trial_count && sorted(outcomes@) && (forall|t: int|
            0 <= t < outcomes@.len() ==> achievable_outcome(
                *params,
                stocks@,
                bonds@,
                #[trigger] outcomes@[t],
            )) && report_of_sorted(outcomes@, percentiles@, report@));
    }
    report
}

} // verus!
