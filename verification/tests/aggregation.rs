//! Tests of outcome sorting and nearest-rank percentile reporting.

use guardrail::report::{percentile_rank_index, percentile_report, sort_outcomes};

#[test]
fn sort_orders_ascending_and_keeps_values() {
    let mut v: Vec<u128> = vec![5, 3, 9, 3, 0, 12, 1];
    sort_outcomes(&mut v);
    assert_eq!(v, vec![0, 1, 3, 3, 5, 9, 12]);
}

#[test]
fn sort_handles_empty_and_single() {
    let mut empty: Vec<u128> = Vec::new();
    sort_outcomes(&mut empty);
    assert!(empty.is_empty());
    let mut one: Vec<u128> = vec![7];
    sort_outcomes(&mut one);
    assert_eq!(one, vec![7]);
}

#[test]
fn nearest_rank_indices_match_formula() {
    assert_eq!(percentile_rank_index(1, 100_000), 1_000);
    assert_eq!(percentile_rank_index(10, 100_000), 10_000);
    assert_eq!(percentile_rank_index(50, 100_000), 50_000);
    assert_eq!(percentile_rank_index(99, 100_000), 99_000);
    assert_eq!(percentile_rank_index(50, 101), 50);
    assert_eq!(percentile_rank_index(0, 10), 0);
    // Clamped to the last valid index.
    assert_eq!(percentile_rank_index(100, 10), 9);
    assert_eq!(percentile_rank_index(99, 1), 0);
}

#[test]
fn indices_monotone_in_percentile() {
    let n = 137usize;
    let mut last = 0usize;
    for p in 0..=100u64 {
        let idx = percentile_rank_index(p, n);
        assert!(idx >= last);
        assert!(idx < n);
        last = idx;
    }
}

#[test]
fn median_of_hundred_known_values() {
    // A synthetic outcome sequence of 100 known values, already ascending:
    // the 50th-percentile report is exactly element 50.
    let outcomes: Vec<u128> = (0..100u128).map(|i| 1_000 * i + 17).collect();
    let report = percentile_report(&outcomes, &vec![50u64]);
    assert_eq!(report.len(), 1);
    assert_eq!(report[0], (50, outcomes[50]));
}

#[test]
fn report_lists_percentiles_in_given_order() {
    let outcomes: Vec<u128> = (0..100u128).collect();
    let ps: Vec<u64> = vec![1, 10, 25, 50, 75, 90, 99];
    let report = percentile_report(&outcomes, &ps);
    assert_eq!(report.len(), 7);
    let mut last_value = 0u128;
    for (k, pair) in report.iter().enumerate() {
        assert_eq!(pair.0, ps[k]);
        assert_eq!(pair.1, outcomes[(ps[k] as usize) * 100 / 100]);
        assert!(pair.1 >= last_value);
        last_value = pair.1;
    }
}

#[test]
fn single_trial_report_maps_every_percentile_to_it() {
    let outcomes: Vec<u128> = vec![123_456];
    let ps: Vec<u64> = vec![1, 10, 25, 50, 75, 90, 99];
    let report = percentile_report(&outcomes, &ps);
    assert_eq!(report.len(), 7);
    for pair in &report {
        assert_eq!(pair.1, 123_456);
    }
}
