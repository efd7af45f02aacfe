//! Tests of configuration validation and the compiled-in inputs.

use guardrail::data::{
    default_bond_returns, default_params, default_percentiles, default_stock_returns,
};
use guardrail::params::{check_series, ConfigError, MAX_INITIAL_BALANCE};

#[test]
fn default_params_pass_validation() {
    let params = default_params();
    assert_eq!(params.validate(), Ok(()));
}

#[test]
fn weights_must_sum_to_one_whole() {
    let mut params = default_params();
    params.stock_weight = 800;
    assert_eq!(params.validate(), Err(ConfigError::WeightsNotUnit));
}

#[test]
fn rates_must_stay_at_or_below_one_whole() {
    let mut params = default_params();
    params.withdrawal_cap = 1001;
    assert_eq!(params.validate(), Err(ConfigError::RateAboveScale));
}

#[test]
fn target_year_must_lie_before_horizon() {
    let mut params = default_params();
    params.target_year = 40;
    assert_eq!(params.validate(), Err(ConfigError::TargetNotBeforeHorizon));
}

#[test]
fn horizon_is_bounded() {
    let mut params = default_params();
    params.horizon = 61;
    assert_eq!(params.validate(), Err(ConfigError::HorizonTooLong));
}

#[test]
fn initial_balance_is_bounded() {
    let mut params = default_params();
    params.initial_portfolio = MAX_INITIAL_BALANCE + 1;
    assert_eq!(params.validate(), Err(ConfigError::BalanceTooLarge));
}

#[test]
fn at_least_one_trial_is_required() {
    let mut params = default_params();
    params.trial_count = 0;
    assert_eq!(params.validate(), Err(ConfigError::NoTrials));
}

#[test]
fn violations_are_reported_in_check_order() {
    let mut params = default_params();
    params.stock_weight = 800;
    params.trial_count = 0;
    assert_eq!(params.validate(), Err(ConfigError::WeightsNotUnit));
}

#[test]
fn empty_series_is_rejected() {
    let empty: Vec<i64> = Vec::new();
    assert!(!check_series(&empty));
}

#[test]
fn out_of_range_return_is_rejected() {
    assert!(!check_series(&vec![243, -1001]));
    assert!(!check_series(&vec![1001]));
    assert!(check_series(&vec![1000, -1000, 0]));
}

#[test]
fn compiled_in_series_are_usable() {
    let stocks = default_stock_returns();
    let bonds = default_bond_returns();
    assert_eq!(stocks.len(), 67);
    assert_eq!(bonds.len(), 67);
    assert!(check_series(&stocks));
    assert!(check_series(&bonds));
    assert_eq!(stocks[0], 243);
    assert_eq!(bonds[0], 37);
    assert_eq!(stocks[66], 159);
    assert_eq!(bonds[66], 2);
}

#[test]
fn default_percentiles_are_ascending() {
    let ps = default_percentiles();
    assert_eq!(ps, vec![1, 10, 25, 50, 75, 90, 99]);
}
