//! The guardrail withdrawal policy: the single-year state transition.
//!
//! One simulated year applies, in order: growth at the blended sampled
//! return, inflation adjustment of the withdrawal, the guardrail raise, the
//! withdrawal cap, the withdrawal itself, target-year capture, and the
//! depletion check. A depleted state absorbs: every later year leaves it
//! unchanged.

use vstd::prelude::*;
use vstd::arithmetic::div_mod::{
    lemma_div_is_ordered, lemma_div_multiples_vanish, lemma_div_pos_is_pos,
};
use vstd::arithmetic::mul::{lemma_mul_inequality, lemma_mul_nonnegative};
use crate::params::{Params, MONEY_CEIL, SCALE};

verus! {

/// The mathematical state of one trial: balance, withdrawal, the outcome
/// captured at the target year, and whether the balance has been depleted.
pub ghost struct SimState {
    pub p: int,
    pub w: int,
    pub captured: int,
    pub depleted: bool,
}

/// State at the start of a trial: the full initial balance, a withdrawal of
/// `initial_portfolio * withdrawal_rate` (scaled), nothing captured yet.
pub open spec fn initial_state(params: Params) -> SimState {
    SimState {
        p: params.initial_portfolio as int,
        w: params.initial_portfolio * params.withdrawal_rate / (SCALE as int),
        captured: 0,
        depleted: false,
    }
}

/// Growth factor of one year, scaled by `SCALE * SCALE`: one whole plus the
/// allocation-weighted blend of the sampled stock and bond returns.
pub open spec fn blend_factor(params: Params, rs: int, rb: int) -> int {
    SCALE * SCALE + params.stock_weight * rs + params.bond_weight * rb
}

/// Balance after one year's growth at the blended return.
pub open spec fn grown(params: Params, p: int, rs: int, rb: int) -> int {
    p * blend_factor(params, rs, rb) / (SCALE * SCALE)
}

/// Withdrawal after the annual inflation adjustment.
pub open spec fn inflated(params: Params, w: int) -> int {
    w * (SCALE + params.inflation_rate) / (SCALE as int)
}

/// The guardrail raise: if the withdrawal is still below the balance scaled
/// by one whole plus the upper guardrail threshold, it is raised by the
/// withdrawal increase. Only the upper threshold is consulted.
pub open spec fn raised(params: Params, p: int, w: int) -> int {
    if w < p * (SCALE + params.upper_guardrail) / (SCALE as int) {
        w * (SCALE + params.withdrawal_increase) / (SCALE as int)
    } else {
        w
    }
}

/// The largest withdrawal the cap allows at balance `p`.
pub open spec fn cap_amount(params: Params, p: int) -> int {
    p * params.withdrawal_cap / (SCALE as int)
}

/// Cap enforcement: the withdrawal never exceeds the cap amount.
pub open spec fn capped(params: Params, p: int, w: int) -> int {
    if cap_amount(params, p) < w {
        cap_amount(params, p)
    } else {
        w
    }
}

/// The full one-year transition. A depleted state is left unchanged;
/// otherwise growth, inflation, raise, cap and withdrawal are applied in
/// order, the withdrawal is captured when `year` is the target year, and the
/// state becomes depleted when the remaining balance is zero or below.
pub open spec fn year_step(params: Params, s: SimState, year: int, rs: int, rb: int) -> SimState {
    if s.depleted {
        s
    } else {
        let p1 = grown(params, s.p, rs, rb);
        let w1 = capped(params, p1, raised(params, p1, inflated(params, s.w)));
        let p2 = p1 - w1;
        let c = if year == params.target_year { w1 } else { s.captured };
        SimState { p: p2, w: w1, captured: c, depleted: p2 <= 0 }
    }
}

/// A state the engine can be in: all components non-negative.
pub open spec fn state_nonneg(s: SimState) -> bool {
    0 <= s.p && 0 <= s.w && 0 <= s.captured
}

/// For `0 <= num <= k * d`, scaling `x` by `num / d` keeps it between `0`
/// and `k * x`.
pub proof fn lemma_mul_div_le(x: int, num: int, d: int, k: int)
    requires
        0 <= x,
        0 <= num <= k * d,
        0 < d,
    ensures
        0 <= x * num / d <= k * x,
{
    lemma_mul_nonnegative(x, num);
    lemma_div_pos_is_pos(x * num, d);
    lemma_mul_inequality(num, k * d, x);
    assert(num * x == x * num) by (nonlinear_arith);
    assert((k * d) * x == d * (k * x)) by (nonlinear_arith);
    lemma_div_is_ordered(x * num, d * (k * x), d);
    lemma_div_multiples_vanish(k * x, d);
}

/// The growth factor lies between zero and twice one whole (scaled): the
/// weights sum to one whole and each sampled return is at most one whole in
/// magnitude.
pub proof fn lemma_blend_factor_bounds(params: Params, rs: int, rb: int)
    requires
        params.valid(),
        -(SCALE as int) <= rs <= SCALE as int,
        -(SCALE as int) <= rb <= SCALE as int,
    ensures
        0 <= blend_factor(params, rs, rb) <= 2 * (SCALE * SCALE),
{
    assert(0 <= SCALE * SCALE + params.stock_weight * rs + params.bond_weight * rb
        <= 2 * (SCALE * SCALE)) by (nonlinear_arith)
        requires
            params.stock_weight + params.bond_weight == SCALE,
            0 <= params.stock_weight,
            0 <= params.bond_weight,
            -(SCALE as int) <= rs <= SCALE as int,
            -(SCALE as int) <= rb <= SCALE as int,
            SCALE == 1000,
    ;
}

/// One year's growth at most doubles a non-negative balance and keeps it
/// non-negative.
pub proof fn lemma_grown_bounds(params: Params, p: int, rs: int, rb: int)
    requires
        params.valid(),
        -(SCALE as int) <= rs <= SCALE as int,
        -(SCALE as int) <= rb <= SCALE as int,
        0 <= p,
    ensures
        0 <= grown(params, p, rs, rb) <= 2 * p,
{
    lemma_blend_factor_bounds(params, rs, rb);
    lemma_mul_div_le(p, blend_factor(params, rs, rb), SCALE * SCALE, 2);
}

/// The inflation adjustment at most doubles a non-negative withdrawal
/// (inflation is at most one whole) and keeps it non-negative.
pub proof fn lemma_inflated_bounds(params: Params, w: int)
    requires
        params.valid(),
        0 <= w,
    ensures
        0 <= inflated(params, w) <= 2 * w,
{
    lemma_mul_div_le(w, SCALE + params.inflation_rate, SCALE as int, 2);
}

/// The guardrail raise at most doubles a non-negative withdrawal (the
/// increase is at most one whole) and keeps it non-negative.
pub proof fn lemma_raised_bounds(params: Params, p: int, w: int)
    requires
        params.valid(),
        0 <= w,
    ensures
        0 <= raised(params, p, w) <= 2 * w,
{
    lemma_mul_div_le(w, SCALE + params.withdrawal_increase, SCALE as int, 2);
}

/// The cap amount at a non-negative balance lies between zero and that
/// balance (the cap fraction is at most one whole).
pub proof fn lemma_cap_amount_bounds(params: Params, p: int)
    requires
        params.valid(),
        0 <= p,
    ensures
        0 <= cap_amount(params, p) <= p,
{
    lemma_mul_div_le(p, params.withdrawal_cap as int, SCALE as int, 1);
}

/// The cap holds at every point of a trial: after any non-absorbed
/// transition, the new withdrawal never exceeds the post-growth balance
/// scaled by the withdrawal cap fraction, and the new balance is exactly
/// the post-growth balance less that withdrawal.
pub proof fn lemma_step_cap_enforced(params: Params, s: SimState, year: int, rs: int, rb: int)
    requires
        !s.depleted,
    ensures
        year_step(params, s, year, rs, rb).w
            <= cap_amount(params, grown(params, s.p, rs, rb)),
        year_step(params, s, year, rs, rb).p
            == grown(params, s.p, rs, rb) - year_step(params, s, year, rs, rb).w,
{
}

/// Bounds of one transition from a non-depleted, non-negative state: the
/// next state is non-negative, its balance and withdrawal are at most twice
/// the old balance, and the captured value is either kept or is the new
/// withdrawal.
pub proof fn lemma_year_step_bounds(params: Params, s: SimState, year: int, rs: int, rb: int)
    requires
        params.valid(),
        -(SCALE as int) <= rs <= SCALE as int,
        -(SCALE as int) <= rb <= SCALE as int,
        state_nonneg(s),
    ensures
        state_nonneg(year_step(params, s, year, rs, rb)),
        !s.depleted ==> year_step(params, s, year, rs, rb).p <= 2 * s.p,
        !s.depleted ==> year_step(params, s, year, rs, rb).w <= 2 * s.p,
        year_step(params, s, year, rs, rb).captured == s.captured
            || year_step(params, s, year, rs, rb).captured
                == year_step(params, s, year, rs, rb).w,
{
    if !s.depleted {
        lemma_grown_bounds(params, s.p, rs, rb);
        let p1 = grown(params, s.p, rs, rb);
        lemma_inflated_bounds(params, s.w);
        lemma_raised_bounds(params, p1, inflated(params, s.w));
        lemma_cap_amount_bounds(params, p1);
    }
}

/// Executable trial state: the fixed-point image of a `SimState`, scoped to
/// one trial.
#[derive(Clone, Copy, Debug, PartialEq, Eq, Structural)]
pub struct TrialState {
    /// Current balance, thousandths of a dollar.
    pub portfolio: u128,
    /// Current annual withdrawal, thousandths of a dollar.
    pub withdrawal: u128,
    /// Withdrawal captured at the target year, zero until then.
    pub captured: u128,
    /// Whether the balance has been depleted.
    pub depleted: bool,
}

impl View for TrialState {
    type V = SimState;

    open spec fn view(&self) -> SimState {
        SimState {
            p: self.portfolio as int,
            w: self.withdrawal as int,
            captured: self.captured as int,
            depleted: self.depleted,
        }
    }
}

impl TrialState {
    /// The state at the start of a trial, reset from the parameters.
    pub fn init(params: &Params) -> (s: Self)
        requires
            params.valid(),
        ensures
            s@ == initial_state(*params),
    {
        assert((params.initial_portfolio as int) * (params.withdrawal_rate as int)
            <= MONEY_CEIL * 1000) by (nonlinear_arith)
            requires
                0 <= params.initial_portfolio <= MONEY_CEIL,
                0 <= params.withdrawal_rate <= 1000,
        ;
        let w = params.initial_portfolio * (params.withdrawal_rate as u128) / (SCALE as u128);
        TrialState { portfolio: params.initial_portfolio, withdrawal: w, captured: 0, depleted: false }
    }

    /// Applies the one-year transition `year_step` for the sampled stock
    /// and bond returns `rs` and `rb` (fixed-point fractions).
    pub fn step(&mut self, params: &Params, year: usize, rs: i64, rb: i64)
        requires
            params.valid(),
            -(SCALE as i64) <= rs <= SCALE as i64,
            -(SCALE as i64) <= rb <= SCALE as i64,
            old(self).portfolio <= MONEY_CEIL,
            old(self).withdrawal <= MONEY_CEIL,
        ensures
            final(self)@ == year_step(*params, old(self)@, year as int, rs as int, rb as int),
    {
        if self.depleted {
            return;
        }
        let ghost s0 = self@;
        proof {
            lemma_blend_factor_bounds(*params, rs as int, rb as int);
            lemma_grown_bounds(*params, s0.p, rs as int, rb as int);
            lemma_inflated_bounds(*params, s0.w);
        }
        let ss: u64 = SCALE * SCALE;
        assert((params.stock_weight as int) * (rs as int) <= 1000000
            && (params.stock_weight as int) * (rs as int) >= -1000000
            && (params.bond_weight as int) * (rb as int) <= 1000000
            && (params.bond_weight as int) * (rb as int) >= -1000000) by (nonlinear_arith)
            requires
                0 <= params.stock_weight <= 1000,
                0 <= params.bond_weight <= 1000,
                -1000 <= rs <= 1000,
                -1000 <= rb <= 1000,
        ;
        let factor_signed: i128 = (ss as i128)
            + (params.stock_weight as i128) * (rs as i128)
            + (params.bond_weight as i128) * (rb as i128);
        let factor: u128 = factor_signed as u128;
        assert(factor == blend_factor(*params, rs as int, rb as int));
        assert((self.portfolio as int) * (factor as int) <= MONEY_CEIL * 2000000)
            by (nonlinear_arith)
            requires
                0 <= self.portfolio <= MONEY_CEIL,
                0 <= factor <= 2000000,
        ;
        let p1: u128 = self.portfolio * factor / (ss as u128);
        assert(p1 == grown(*params, s0.p, rs as int, rb as int));
        assert(p1 <= 2 * MONEY_CEIL);

        assert((self.withdrawal as int) * ((SCALE + params.inflation_rate) as int)
            <= MONEY_CEIL * 2000) by (nonlinear_arith)
            requires
                0 <= self.withdrawal <= MONEY_CEIL,
                0 <= SCALE + params.inflation_rate <= 2000,
        ;
        let w1: u128 = self.withdrawal * ((SCALE + params.inflation_rate) as u128)
            / (SCALE as u128);
        assert(w1 == inflated(*params, s0.w));
        assert(w1 <= 2 * MONEY_CEIL);

        assert((p1 as int) * ((SCALE + params.upper_guardrail) as int)
            <= 2 * MONEY_CEIL * 2000) by (nonlinear_arith)
            requires
                0 <= p1 <= 2 * MONEY_CEIL,
                0 <= SCALE + params.upper_guardrail <= 2000,
        ;
        let threshold: u128 = p1 * ((SCALE + params.upper_guardrail) as u128) / (SCALE as u128);
        let w2: u128 = if w1 < threshold {
            assert((w1 as int) * ((SCALE + params.withdrawal_increase) as int)
                <= 2 * MONEY_CEIL * 2000) by (nonlinear_arith)
                requires
                    0 <= w1 <= 2 * MONEY_CEIL,
                    0 <= SCALE + params.withdrawal_increase <= 2000,
            ;
            w1 * ((SCALE + params.withdrawal_increase) as u128) / (SCALE as u128)
        } else {
            w1
        };
        assert(w2 == raised(*params, p1 as int, w1 as int));

        assert((p1 as int) * (params.withdrawal_cap as int) <= 2 * MONEY_CEIL * 1000)
            by (nonlinear_arith)
            requires
                0 <= p1 <= 2 * MONEY_CEIL,
                0 <= params.withdrawal_cap <= 1000,
        ;
        let cap: u128 = p1 * (params.withdrawal_cap as u128) / (SCALE as u128);
        assert(cap == cap_amount(*params, p1 as int));
        proof {
            lemma_cap_amount_bounds(*params, p1 as int);
        }
        let w3: u128 = if cap < w2 { cap } else { w2 };
        assert(w3 == capped(*params, p1 as int, w2 as int));
        assert(w3 <= p1);

        let p2: u128 = p1 - w3;
        self.portfolio = p2;
        self.withdrawal = w3;
        if year == params.target_year {
            self.captured = w3;
        }
        self.depleted = p2 == 0;
        assert(self@ == year_step(*params, s0, year as int, rs as int, rb as int));
    }
}

} // verus!
