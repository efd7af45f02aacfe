//! One trial: the year transition driven across the whole horizon by a
//! sequence of sampled draws, producing one scalar outcome.
//!
//! The draw sequences name, for each simulated year, which index of the
//! stock series and of the bond series was sampled; a trial is a pure
//! function of the parameters, the series and these draws.

use vstd::prelude::*;
use vstd::arithmetic::mul::lemma_mul_inequality;
use vstd::arithmetic::power2::{
    lemma2_to64, lemma2_to64_rest, lemma_pow2_adds, lemma_pow2_strictly_increases, pow2,
};
use crate::params::{valid_series, Params, MAX_INITIAL_BALANCE, MONEY_CEIL, SCALE};
use crate::policy::{
    initial_state, lemma_mul_div_le, lemma_year_step_bounds, state_nonneg, year_step, SimState,
    TrialState,
};

verus! {

/// The first `n` draws exist and each names an in-range index of a series
/// of length `len`.
pub open spec fn draws_in_range(draws: Seq<usize>, n: int, len: int) -> bool {
    &&& n <= draws.len()
    &&& forall|y: int| 0 <= y < n ==> (#[trigger] draws[y]) < len
}

/// A draw sequence usable for `n` years against a series of length `len`:
/// exactly one in-range index per year.
pub open spec fn valid_draws(draws: Seq<usize>, n: int, len: int) -> bool {
    &&& draws.len() == n
    &&& draws_in_range(draws, n, len)
}

/// The trial state after the first `year` simulated years, starting from
/// `initial_state` and applying `year_step` once per year with the returns
/// the draws select.
pub open spec fn state_after(
    params: Params,
    stocks: Seq<i64>,
    bonds: Seq<i64>,
    si: Seq<usize>,
    bi: Seq<usize>,
    year: int,
) -> SimState
    decreases year,
{
    if year <= 0 {
        initial_state(params)
    } else {
        year_step(
            params,
            state_after(params, stocks, bonds, si, bi, year - 1),
            year - 1,
            stocks[si[year - 1] as int] as int,
            bonds[bi[year - 1] as int] as int,
        )
    }
}

/// The outcome of one trial: the withdrawal captured at the target year,
/// or zero if the balance was depleted anywhere within the horizon.
pub open spec fn trial_outcome(
    params: Params,
    stocks: Seq<i64>,
    bonds: Seq<i64>,
    si: Seq<usize>,
    bi: Seq<usize>,
) -> int {
    let s = state_after(params, stocks, bonds, si, bi, params.horizon as int);
    if s.depleted {
        0
    } else {
        s.captured
    }
}

/// The state after `year` years reads only the first `year` draws: two draw
/// pairs that agree there lead to the same state.
pub proof fn lemma_state_after_agrees(
    params: Params,
    stocks: Seq<i64>,
    bonds: Seq<i64>,
    si1: Seq<usize>,
    bi1: Seq<usize>,
    si2: Seq<usize>,
    bi2: Seq<usize>,
    year: int,
)
    requires
        forall|y: int| 0 <= y < year ==> (#[trigger] si1[y]) == si2[y],
        forall|y: int| 0 <= y < year ==> (#[trigger] bi1[y]) == bi2[y],
    ensures
        state_after(params, stocks, bonds, si1, bi1, year)
            == state_after(params, stocks, bonds, si2, bi2, year),
    decreases year,
{
    if year > 0 {
        lemma_state_after_agrees(params, stocks, bonds, si1, bi1, si2, bi2, year - 1);
    }
}

/// Every reachable state is non-negative, and its balance and withdrawal
/// stay at or below the initial balance doubled once per elapsed year.
pub proof fn lemma_state_after_bounds(
    params: Params,
    stocks: Seq<i64>,
    bonds: Seq<i64>,
    si: Seq<usize>,
    bi: Seq<usize>,
    year: int,
)
    requires
        params.valid(),
        valid_series(stocks),
        valid_series(bonds),
        0 <= year <= params.horizon,
        draws_in_range(si, year, stocks.len() as int),
        draws_in_range(bi, year, bonds.len() as int),
    ensures
        state_nonneg(state_after(params, stocks, bonds, si, bi, year)),
        state_after(params, stocks, bonds, si, bi, year).p
            <= params.initial_portfolio * pow2(year as nat),
        state_after(params, stocks, bonds, si, bi, year).w
            <= params.initial_portfolio * pow2(year as nat),
        state_after(params, stocks, bonds, si, bi, year).captured
            <= params.initial_portfolio * pow2(year as nat),
    decreases year,
{
    let p0 = params.initial_portfolio as int;
    if year == 0 {
        lemma2_to64();
        lemma_mul_div_le(p0, params.withdrawal_rate as int, SCALE as int, 1);
    } else {
        lemma_state_after_bounds(params, stocks, bonds, si, bi, year - 1);
        let s = state_after(params, stocks, bonds, si, bi, year - 1);
        let rs = stocks[si[year - 1] as int] as int;
        let rb = bonds[bi[year - 1] as int] as int;
        lemma_year_step_bounds(params, s, year - 1, rs, rb);
        let bound_prev = p0 * pow2((year - 1) as nat);
        let bound = p0 * pow2(year as nat);
        assert(pow2(year as nat) == 2 * pow2((year - 1) as nat)) by {
            vstd::arithmetic::power2::lemma_pow2_unfold(year as nat);
        }
        assert(2 * bound_prev == bound) by (nonlinear_arith)
            requires
                bound_prev == p0 * pow2((year - 1) as nat),
                bound == p0 * pow2(year as nat),
                pow2(year as nat) == 2 * pow2((year - 1) as nat),
        ;
        assert(bound_prev <= bound) by (nonlinear_arith)
            requires
                2 * bound_prev == bound,
                0 <= s.p <= bound_prev,
        ;
        let t = state_after(params, stocks, bonds, si, bi, year);
        if s.depleted {
            assert(t == s);
        } else {
            assert(t.p <= 2 * s.p <= 2 * bound_prev);
            assert(t.w <= 2 * s.p <= 2 * bound_prev);
            assert(t.captured <= bound);
        }
    }
}

/// Within a valid configuration, every reachable balance and withdrawal
/// fits under `MONEY_CEIL`, so the executable transition never overflows.
pub proof fn lemma_state_after_fits(
    params: Params,
    stocks: Seq<i64>,
    bonds: Seq<i64>,
    si: Seq<usize>,
    bi: Seq<usize>,
    year: int,
)
    requires
        params.valid(),
        valid_series(stocks),
        valid_series(bonds),
        0 <= year <= params.horizon,
        draws_in_range(si, year, stocks.len() as int),
        draws_in_range(bi, year, bonds.len() as int),
    ensures
        state_nonneg(state_after(params, stocks, bonds, si, bi, year)),
        state_after(params, stocks, bonds, si, bi, year).p <= MONEY_CEIL,
        state_after(params, stocks, bonds, si, bi, year).w <= MONEY_CEIL,
        state_after(params, stocks, bonds, si, bi, year).captured <= MONEY_CEIL,
    decreases year,
{
    lemma_state_after_bounds(params, stocks, bonds, si, bi, year);
    let p0 = params.initial_portfolio as int;
    if year < 60 {
        lemma_pow2_strictly_increases(year as nat, 60);
    }
    assert(pow2(year as nat) <= pow2(60));
    lemma_mul_inequality(pow2(year as nat) as int, pow2(60) as int, p0);
    assert(pow2(year as nat) * p0 == p0 * pow2(year as nat)) by (nonlinear_arith);
    assert(pow2(60) * p0 == p0 * pow2(60)) by (nonlinear_arith);
    lemma_mul_inequality(p0, MAX_INITIAL_BALANCE as int, pow2(60) as int);
    assert(p0 * pow2(60) == pow2(60) * p0) by (nonlinear_arith);
    assert((MAX_INITIAL_BALANCE as int) * pow2(60) == pow2(60) * (MAX_INITIAL_BALANCE as int))
        by (nonlinear_arith);
    assert(MAX_INITIAL_BALANCE == pow2(46) && (MAX_INITIAL_BALANCE as int) * pow2(60)
        == MONEY_CEIL) by {
        lemma2_to64();
        lemma2_to64_rest();
        lemma_pow2_adds(46, 60);
    }
}

/// Depletion absorbs: once the state after some year is depleted, the state
/// after every later year is depleted too.
pub proof fn lemma_depletion_absorbs(
    params: Params,
    stocks: Seq<i64>,
    bonds: Seq<i64>,
    si: Seq<usize>,
    bi: Seq<usize>,
    y1: int,
    y2: int,
)
    requires
        0 <= y1 <= y2,
        state_after(params, stocks, bonds, si, bi, y1).depleted,
    ensures
        state_after(params, stocks, bonds, si, bi, y2).depleted,
    decreases y2 - y1,
{
    if y1 < y2 {
        lemma_depletion_absorbs(params, stocks, bonds, si, bi, y1, y2 - 1);
    }
}

/// If the balance is depleted at any year within the horizon, the trial
/// outcome is exactly zero, whatever was captured at the target year.
pub proof fn lemma_depletion_forces_zero(
    params: Params,
    stocks: Seq<i64>,
    bonds: Seq<i64>,
    si: Seq<usize>,
    bi: Seq<usize>,
    year: int,
)
    requires
        0 <= year <= params.horizon,
        state_after(params, stocks, bonds, si, bi, year).depleted,
    ensures
        trial_outcome(params, stocks, bonds, si, bi) == 0,
{
    lemma_depletion_absorbs(params, stocks, bonds, si, bi, year, params.horizon as int);
}

/// Every trial outcome is non-negative: depletion forces exactly zero, and
/// otherwise the outcome is a withdrawal, non-negative by construction.
pub proof fn lemma_outcome_nonneg(
    params: Params,
    stocks: Seq<i64>,
    bonds: Seq<i64>,
    si: Seq<usize>,
    bi: Seq<usize>,
)
    requires
        params.valid(),
        valid_series(stocks),
        valid_series(bonds),
        draws_in_range(si, params.horizon as int, stocks.len() as int),
        draws_in_range(bi, params.horizon as int, bonds.len() as int),
    ensures
        trial_outcome(params, stocks, bonds, si, bi) >= 0,
{
    lemma_state_after_bounds(params, stocks, bonds, si, bi, params.horizon as int);
}

/// After the target year has passed, the captured value never changes
/// again: a later transition either leaves a depleted state whole or keeps
/// the old capture.
proof fn lemma_capture_frozen_after_target(
    params: Params,
    stocks: Seq<i64>,
    bonds: Seq<i64>,
    si: Seq<usize>,
    bi: Seq<usize>,
    year: int,
)
    requires
        params.target_year + 1 <= year,
    ensures
        state_after(params, stocks, bonds, si, bi, year).captured
            == state_after(params, stocks, bonds, si, bi, params.target_year + 1).captured,
    decreases year,
{
    if year > params.target_year + 1 {
        lemma_capture_frozen_after_target(params, stocks, bonds, si, bi, year - 1);
    }
}

/// A trial that completes the horizon without depletion reports exactly
/// the withdrawal realized in the target year.
pub proof fn lemma_outcome_is_target_year_withdrawal(
    params: Params,
    stocks: Seq<i64>,
    bonds: Seq<i64>,
    si: Seq<usize>,
    bi: Seq<usize>,
)
    requires
        params.valid(),
        !state_after(params, stocks, bonds, si, bi, params.horizon as int).depleted,
    ensures
        trial_outcome(params, stocks, bonds, si, bi)
            == state_after(params, stocks, bonds, si, bi, params.target_year + 1).w,
{
    let target = params.target_year as int;
    if state_after(params, stocks, bonds, si, bi, target + 1).depleted {
        lemma_depletion_absorbs(params, stocks, bonds, si, bi, target + 1, params.horizon as int);
    }
    if state_after(params, stocks, bonds, si, bi, target).depleted {
        lemma_depletion_absorbs(params, stocks, bonds, si, bi, target, params.horizon as int);
    }
    lemma_capture_frozen_after_target(params, stocks, bonds, si, bi, params.horizon as int);
}

/// Determinism: a trial is a pure function of the parameters, the series
/// and the draw sequences; equal draws give bit-equal outcomes.
pub proof fn lemma_trial_deterministic(
    params: Params,
    stocks: Seq<i64>,
    bonds: Seq<i64>,
    si1: Seq<usize>,
    bi1: Seq<usize>,
    si2: Seq<usize>,
    bi2: Seq<usize>,
)
    requires
        si1 == si2,
        bi1 == bi2,
    ensures
        trial_outcome(params, stocks, bonds, si1, bi1)
            == trial_outcome(params, stocks, bonds, si2, bi2),
{
}

/// Runs one full trial with the given draw sequences, returning exactly the
/// outcome `trial_outcome` assigns to them.
pub fn run_trial_indices(
    params: &Params,
    stocks: &Vec<i64>,
    bonds: &Vec<i64>,
    si: &Vec<usize>,
    bi: &Vec<usize>,
) -> (r: u128)
    requires
        params.valid(),
        valid_series(stocks@),
        valid_series(bonds@),
        valid_draws(si@, params.horizon as int, stocks@.len() as int),
        valid_draws(bi@, params.horizon as int, bonds@.len() as int),
    ensures
        r == trial_outcome(*params, stocks@, bonds@, si@, bi@),
{
    let mut st = TrialState::init(params);
    let mut year: usize = 0;
    while year < params.horizon
        invariant
            params.valid(),
            valid_series(stocks@),
            valid_series(bonds@),
            valid_draws(si@, params.horizon as int, stocks@.len() as int),
            valid_draws(bi@, params.horizon as int, bonds@.len() as int),
            0 <= year <= params.horizon,
            st@ == state_after(*params, stocks@, bonds@, si@, bi@, year as int),
        decreases params.horizon - year,
    {
        proof {
            lemma_state_after_fits(*params, stocks@, bonds@, si@, bi@, year as int);
        }
        let i = si[year];
        let j = bi[year];
        let rs = stocks[i];
        let rb = bonds[j];
        st.step(params, year, rs, rb);
        year += 1;
    }
    if st.depleted {
        0
    } else {
        st.captured
    }
}

} // verus!
