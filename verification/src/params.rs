//! Simulation parameters and their fail-fast validation.

use vstd::prelude::*;

verus! {

/// Fixed-point denominator: 1000 thousandths make one whole, both for rates
/// and for money (a balance of 1000 is one dollar).
pub const SCALE: u64 = 1000;

/// Longest supported horizon, in years. A blended annual return is at most
/// `SCALE` (one whole, a doubling), so a balance at most doubles each year;
/// this bound together with `MAX_INITIAL_BALANCE` keeps every balance the
/// engine can reach within 128-bit arithmetic.
pub const MAX_HORIZON: usize = 60;

/// Largest supported initial balance, in thousandths of a dollar (2^46,
/// about seventy billion dollars). See `MAX_HORIZON`.
pub const MAX_INITIAL_BALANCE: u128 = 70_368_744_177_664;

/// Every balance and withdrawal the engine can reach stays at or below this
/// ceiling (2^46 doubled `MAX_HORIZON` times, i.e. 2^106); products with a
/// rate factor of at most `2 * SCALE * SCALE` then fit in a `u128`.
pub const MONEY_CEIL: u128 = 81_129_638_414_606_681_695_789_005_144_064;

/// The immutable configuration bundle for one run: starting balance, the
/// guardrail withdrawal policy's rates, the allocation mix, the horizon and
/// the year whose withdrawal is reported, and how many trials to run.
///
/// All rates are fixed-point fractions in thousandths. The lower guardrail
/// threshold is part of the configuration but is never consulted by the
/// year transition; only the upper threshold gates the raise.
#[derive(Clone, Copy, Debug)]
pub struct Params {
    /// Starting balance, thousandths of a dollar.
    pub initial_portfolio: u128,
    /// First-year withdrawal as a fraction of the starting balance.
    pub withdrawal_rate: u64,
    /// Threshold gating the annual withdrawal raise.
    pub upper_guardrail: u64,
    /// Configured but not consulted by the transition (a documented
    /// asymmetry of the policy).
    pub lower_guardrail: u64,
    /// Fractional raise applied when the guardrail check passes.
    pub withdrawal_increase: u64,
    /// Hard cap on the withdrawal as a fraction of the current balance.
    pub withdrawal_cap: u64,
    /// Annual inflation adjustment applied to the withdrawal.
    pub inflation_rate: u64,
    /// Stock allocation weight; with `bond_weight` sums to `SCALE`.
    pub stock_weight: u64,
    /// Bond allocation weight.
    pub bond_weight: u64,
    /// Number of simulated years in one trial.
    pub horizon: usize,
    /// Year index whose withdrawal becomes the trial outcome.
    pub target_year: usize,
    /// Number of independent trials.
    pub trial_count: usize,
}

/// A configuration that breaks an invariant is rejected before any trial
/// runs.
#[derive(Clone, Copy, Debug, PartialEq, Eq, Structural)]
pub enum ConfigError {
    /// Allocation weights do not sum to one whole.
    WeightsNotUnit,
    /// A rate field exceeds one whole.
    RateAboveScale,
    /// The target year does not lie strictly before the horizon.
    TargetNotBeforeHorizon,
    /// The horizon exceeds `MAX_HORIZON`.
    HorizonTooLong,
    /// The initial balance exceeds `MAX_INITIAL_BALANCE`.
    BalanceTooLarge,
    /// No trials were requested.
    NoTrials,
}

impl Params {
    /// All configuration invariants at once: weights sum to one whole, every
    /// rate is at most one whole, the target year lies within the horizon,
    /// and the machine bounds on horizon and balance hold.
    pub open spec fn valid(self) -> bool {
        &&& self.stock_weight + self.bond_weight == SCALE
        &&& self.rates_in_range()
        &&& self.target_year < self.horizon
        &&& self.horizon <= MAX_HORIZON
        &&& self.initial_portfolio <= MAX_INITIAL_BALANCE
        &&& self.trial_count >= 1
    }

    /// Every rate field is at most one whole.
    pub open spec fn rates_in_range(self) -> bool {
        &&& self.withdrawal_rate <= SCALE
        &&& self.upper_guardrail <= SCALE
        &&& self.lower_guardrail <= SCALE
        &&& self.withdrawal_increase <= SCALE
        &&& self.withdrawal_cap <= SCALE
        &&& self.inflation_rate <= SCALE
    }

    /// The first invariant violation found, in the order the checks run, or
    /// `None` for a valid configuration.
    pub open spec fn first_violation(self) -> Option<ConfigError> {
        if self.stock_weight + self.bond_weight != SCALE {
            Some(ConfigError::WeightsNotUnit)
        } else if !self.rates_in_range() {
            Some(ConfigError::RateAboveScale)
        } else if self.target_year >= self.horizon {
            Some(ConfigError::TargetNotBeforeHorizon)
        } else if self.horizon > MAX_HORIZON {
            Some(ConfigError::HorizonTooLong)
        } else if self.initial_portfolio > MAX_INITIAL_BALANCE {
            Some(ConfigError::BalanceTooLarge)
        } else if self.trial_count < 1 {
            Some(ConfigError::NoTrials)
        } else {
            None
        }
    }

    /// Fail-fast configuration check: succeeds exactly on valid parameter
    /// bundles, and otherwise names the first violated invariant.
    pub fn validate(&self) -> (r: Result<(), ConfigError>)
        ensures
            r is Ok <==> self.valid(),
            r == (match self.first_violation() {
                Some(e) => Result::<(), ConfigError>::Err(e),
                None => Result::<(), ConfigError>::Ok(()),
            }),
    {
        if self.stock_weight > SCALE || self.bond_weight != SCALE - self.stock_weight {
            Err(ConfigError::WeightsNotUnit)
        } else if self.withdrawal_rate > SCALE || self.upper_guardrail > SCALE
            || self.lower_guardrail > SCALE || self.withdrawal_increase > SCALE
            || self.withdrawal_cap > SCALE || self.inflation_rate > SCALE {
            Err(ConfigError::RateAboveScale)
        } else if self.target_year >= self.horizon {
            Err(ConfigError::TargetNotBeforeHorizon)
        } else if self.horizon > MAX_HORIZON {
            Err(ConfigError::HorizonTooLong)
        } else if self.initial_portfolio > MAX_INITIAL_BALANCE {
            Err(ConfigError::BalanceTooLarge)
        } else if self.trial_count < 1 {
            Err(ConfigError::NoTrials)
        } else {
            Ok(())
        }
    }
}

/// A usable historical return series: non-empty, each annual return fraction
/// between minus one whole and plus one whole.
pub open spec fn valid_series(s: Seq<i64>) -> bool {
    &&& s.len() > 0
    &&& forall|i: int| 0 <= i < s.len() ==> -(SCALE as i64) <= #[trigger] s[i] <= SCALE as i64
}

/// Fail-fast check of a historical return series against `valid_series`.
pub fn check_series(v: &Vec<i64>) -> (b: bool)
    ensures
        b == valid_series(v@),
{
    if v.len() == 0 {
        return false;
    }
    let mut i: usize = 0;
    while i < v.len()
        invariant
            0 <= i <= v@.len(),
            forall|k: int| 0 <= k < i ==> -(SCALE as i64) <= #[trigger] v@[k] <= SCALE as i64,
        decreases v@.len() - i,
    {
        let x = v[i];
        if x < -(SCALE as i64) || x > SCALE as i64 {
            return false;
        }
        i += 1;
    }
    true
}

} // verus!
