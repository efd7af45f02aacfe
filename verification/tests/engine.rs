//! Tests of the withdrawal policy engine and the trial runner.

use guardrail::data::{default_bond_returns, default_params, default_stock_returns};
use guardrail::params::Params;
use guardrail::policy::TrialState;
use guardrail::trial::run_trial_indices;

/// One expected year transition under the default rates with the draws
/// fixed to index 0: stock return 0.243, bond return 0.037, weights 90/10,
/// inflation 2.2%, upper guardrail 4%, increase 5%, cap 6%.
fn expected_step(p: u128, w: u128) -> (u128, u128) {
    let factor: u128 = 1_000_000 + 900 * 243 + 100 * 37;
    let p1 = p * factor / 1_000_000;
    let w1 = w * 1022 / 1000;
    let threshold = p1 * 1040 / 1000;
    let w2 = if w1 < threshold { w1 * 1050 / 1000 } else { w1 };
    let cap = p1 * 60 / 1000;
    let w3 = if cap < w2 { cap } else { w2 };
    (p1 - w3, w3)
}

#[test]
fn initial_state_from_default_params() {
    let params = default_params();
    let st = TrialState::init(&params);
    assert_eq!(st.portfolio, 4_000_000_000);
    assert_eq!(st.withdrawal, 200_000_000);
    assert_eq!(st.captured, 0);
    assert!(!st.depleted);
}

#[test]
fn year_by_year_trace_with_constant_draws() {
    let params = default_params();
    let mut st = TrialState::init(&params);
    let mut p: u128 = 4_000_000_000;
    let mut w: u128 = 200_000_000;
    let mut captured: u128 = 0;
    for year in 0..40usize {
        st.step(&params, year, 243, 37);
        let (p2, w2) = expected_step(p, w);
        p = p2;
        w = w2;
        if year == 14 {
            captured = w;
        }
        assert_eq!(st.portfolio, p, "balance differs in year {}", year);
        assert_eq!(st.withdrawal, w, "withdrawal differs in year {}", year);
        assert_eq!(st.captured, captured, "capture differs in year {}", year);
        assert!(!st.depleted, "depleted in year {}", year);
        assert!(p > 0);
    }
    assert!(captured > 0);

    let stocks = default_stock_returns();
    let bonds = default_bond_returns();
    let si = vec![0usize; 40];
    let bi = vec![0usize; 40];
    let outcome = run_trial_indices(&params, &stocks, &bonds, &si, &bi);
    assert_eq!(outcome, captured);
}

#[test]
fn cap_binds_when_withdrawal_rate_is_high() {
    let mut params = default_params();
    params.withdrawal_rate = 200;
    let mut st = TrialState::init(&params);
    assert_eq!(st.withdrawal, 800_000_000);
    st.step(&params, 0, 243, 37);
    let grown_balance: u128 = 4_000_000_000 * 1_222_400 / 1_000_000;
    assert_eq!(st.withdrawal, grown_balance * 60 / 1000);
    assert_eq!(st.portfolio, grown_balance - st.withdrawal);
}

#[test]
fn total_loss_depletes_and_outcome_is_zero() {
    let mut params = default_params();
    params.horizon = 3;
    params.target_year = 1;
    let stocks = vec![-1000i64];
    let bonds = vec![-1000i64];
    let si = vec![0usize; 3];
    let bi = vec![0usize; 3];
    let outcome = run_trial_indices(&params, &stocks, &bonds, &si, &bi);
    assert_eq!(outcome, 0);
}

#[test]
fn depletion_overrides_captured_target_value() {
    // A strong gain until the target year is captured, then a total loss:
    // the depletion short-circuit must force the outcome to exactly zero.
    let mut params = default_params();
    params.horizon = 4;
    params.target_year = 1;
    let stocks = vec![243i64, -1000];
    let bonds = vec![37i64, -1000];
    let si = vec![0usize, 0, 1, 1];
    let bi = vec![0usize, 0, 1, 1];
    let outcome = run_trial_indices(&params, &stocks, &bonds, &si, &bi);
    assert_eq!(outcome, 0);
}

#[test]
fn depleted_state_absorbs_further_steps() {
    let mut params = default_params();
    params.horizon = 3;
    params.target_year = 1;
    let mut st = TrialState::init(&params);
    st.step(&params, 0, -1000, -1000);
    assert!(st.depleted);
    let frozen = st;
    st.step(&params, 1, 243, 37);
    assert_eq!(st, frozen);
}

#[test]
fn identical_draw_sequences_give_identical_outcomes() {
    let params = default_params();
    let stocks = default_stock_returns();
    let bonds = default_bond_returns();
    let mut first_run: Vec<u128> = Vec::new();
    let mut second_run: Vec<u128> = Vec::new();
    for trial in 0..5usize {
        let si: Vec<usize> = (0..40).map(|y| (trial * 7 + y * 13) % stocks.len()).collect();
        let bi: Vec<usize> = (0..40).map(|y| (trial * 11 + y * 3) % bonds.len()).collect();
        first_run.push(run_trial_indices(&params, &stocks, &bonds, &si, &bi));
        second_run.push(run_trial_indices(&params, &stocks, &bonds, &si, &bi));
    }
    assert_eq!(first_run, second_run);
}
