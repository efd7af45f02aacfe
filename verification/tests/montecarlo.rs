//! Tests of the randomized Monte Carlo driver, run with the real generator.

use guardrail::data::{default_bond_returns, default_params, default_stock_returns};
use guardrail::montecarlo::{run_simulations, simulate_percentiles};
use guardrail::report::{percentile_report, sort_outcomes};

#[test]
fn orchestrator_collects_one_outcome_per_trial() {
    let mut params = default_params();
    params.trial_count = 25;
    params.horizon = 10;
    params.target_year = 5;
    let stocks = default_stock_returns();
    let bonds = default_bond_returns();
    let outcomes = run_simulations(&params, &stocks, &bonds);
    assert_eq!(outcomes.len(), 25);
}

#[test]
fn total_loss_series_yields_all_zero_outcomes() {
    let mut params = default_params();
    params.trial_count = 10;
    params.horizon = 5;
    params.target_year = 2;
    let stocks = vec![-1000i64];
    let bonds = vec![-1000i64];
    let outcomes = run_simulations(&params, &stocks, &bonds);
    assert_eq!(outcomes, vec![0u128; 10]);
}

#[test]
fn end_to_end_report_over_random_outcomes() {
    let mut params = default_params();
    params.trial_count = 40;
    params.horizon = 8;
    params.target_year = 3;
    let stocks = default_stock_returns();
    let bonds = default_bond_returns();
    let mut outcomes = run_simulations(&params, &stocks, &bonds);
    sort_outcomes(&mut outcomes);
    for pair in outcomes.windows(2) {
        assert!(pair[0] <= pair[1]);
    }
    let report = percentile_report(&outcomes, &vec![1, 50, 99]);
    assert_eq!(report.len(), 3);
    assert!(report[0].1 <= report[1].1 && report[1].1 <= report[2].1);
}

#[test]
fn whole_batch_reports_requested_percentiles_in_order() {
    let mut params = default_params();
    params.trial_count = 30;
    params.horizon = 6;
    params.target_year = 2;
    let stocks = default_stock_returns();
    let bonds = default_bond_returns();
    let ps: Vec<u64> = vec![1, 10, 25, 50, 75, 90, 99];
    let report = simulate_percentiles(&params, &stocks, &bonds, &ps);
    assert_eq!(report.len(), 7);
    let mut last_value = 0u128;
    for (k, pair) in report.iter().enumerate() {
        assert_eq!(pair.0, ps[k]);
        assert!(pair.1 >= last_value);
        last_value = pair.1;
    }
}

#[test]
fn single_trial_batch_reports_one_value_everywhere() {
    let mut params = default_params();
    params.trial_count = 1;
    params.horizon = 5;
    params.target_year = 4;
    let stocks = default_stock_returns();
    let bonds = default_bond_returns();
    let report = simulate_percentiles(&params, &stocks, &bonds, &vec![1, 50, 99]);
    assert_eq!(report.len(), 3);
    assert_eq!(report[0].1, report[1].1);
    assert_eq!(report[1].1, report[2].1);
}
