//! The compiled-in inputs: the two historical annual return series and the
//! default simulation parameters, in the library's fixed-point units.

use vstd::prelude::*;
use crate::params::Params;

verus! {

/// Historical S&P 500 annual returns, thousandths, oldest first.
pub open spec fn historical_stock_returns() -> Seq<i64> {
    seq![
        243i64, 108i64, 38i64, 111i64, 268i64, 109i64, 189i64, 132i64, -96i64, 78i64,
        113i64, 4i64, 85i64, 141i64, 198i64, -9i64, -118i64, -226i64, 286i64, 61i64,
        188i64, 321i64, 51i64, -84i64, 258i64, 204i64, 264i64, 20i64, 168i64, 314i64,
        53i64, -37i64, 305i64, 71i64, -33i64, 115i64, 284i64, 106i64, -233i64, 265i64,
        194i64, 88i64, -121i64, -220i64, 284i64, 157i64, 55i64, 217i64, 49i64, 312i64,
        132i64, -89i64, 283i64, 107i64, 212i64, -99i64, 265i64, 96i64, 132i64, 289i64,
        70i64, -67i64, 273i64, -91i64, 148i64, 272i64, 159i64,
    ]
}

/// Historical U.S. Treasury bond annual returns, thousandths, oldest first.
pub open spec fn historical_bond_returns() -> Seq<i64> {
    seq![
        37i64, 41i64, 45i64, 48i64, 51i64, 44i64, 47i64, 50i64, 53i64, 55i64,
        60i64, 63i64, 65i64, 68i64, 70i64, 72i64, 75i64, 77i64, 80i64, 78i64,
        76i64, 74i64, 71i64, 68i64, 65i64, 63i64, 60i64, 58i64, 55i64, 52i64,
        50i64, 48i64, 46i64, 43i64, 41i64, 38i64, 35i64, 32i64, 30i64, 28i64,
        25i64, 23i64, 21i64, 19i64, 17i64, 15i64, 13i64, 11i64, 10i64, 9i64,
        8i64, 7i64, 6i64, 5i64, 4i64, 3i64, 2i64, 2i64, 2i64, 2i64,
        2i64, 2i64, 2i64, 2i64, 2i64, 2i64, 2i64,
    ]
}

/// The historical stock return series as a vector, exactly
/// `historical_stock_returns`.
pub fn default_stock_returns() -> (v: Vec<i64>)
    ensures
        v@ == historical_stock_returns(),
{
    let v: Vec<i64> = vec![
        243, 108, 38, 111, 268, 109, 189, 132, -96, 78,
        113, 4, 85, 141, 198, -9, -118, -226, 286, 61,
        188, 321, 51, -84, 258, 204, 264, 20, 168, 314,
        53, -37, 305, 71, -33, 115, 284, 106, -233, 265,
        194, 88, -121, -220, 284, 157, 55, 217, 49, 312,
        132, -89, 283, 107, 212, -99, 265, 96, 132, 289,
        70, -67, 273, -91, 148, 272, 159,
    ];
    proof {
        assert(v@ =~= historical_stock_returns());
    }
    v
}

/// The historical bond return series as a vector, exactly
/// `historical_bond_returns`.
pub fn default_bond_returns() -> (v: Vec<i64>)
    ensures
        v@ == historical_bond_returns(),
{
    let v: Vec<i64> = vec![
        37, 41, 45, 48, 51, 44, 47, 50, 53, 55,
        60, 63, 65, 68, 70, 72, 75, 77, 80, 78,
        76, 74, 71, 68, 65, 63, 60, 58, 55, 52,
        50, 48, 46, 43, 41, 38, 35, 32, 30, 28,
        25, 23, 21, 19, 17, 15, 13, 11, 10, 9,
        8, 7, 6, 5, 4, 3, 2, 2, 2, 2,
        2, 2, 2, 2, 2, 2, 2,
    ];
    proof {
        assert(v@ =~= historical_bond_returns());
    }
    v
}

/// The default configuration: a four-million-dollar starting balance, a
/// five-percent initial withdrawal, the guardrail policy's rates, a ninety
/// to ten stock-bond mix, a forty-year horizon with the fifteenth year
/// reported, and one hundred thousand trials.
pub fn default_params() -> (p: Params)
    ensures
        p.valid(),
        p.initial_portfolio == 4_000_000_000,
        p.withdrawal_rate == 50,
        p.upper_guardrail == 40,
        p.lower_guardrail == 60,
        p.withdrawal_increase == 50,
        p.withdrawal_cap == 60,
        p.inflation_rate == 22,
        p.stock_weight == 900,
        p.bond_weight == 100,
        p.horizon == 40,
        p.target_year == 14,
        p.trial_count == 100_000,
{
    Params {
        initial_portfolio: 4_000_000_000,
        withdrawal_rate: 50,
        upper_guardrail: 40,
        lower_guardrail: 60,
        withdrawal_increase: 50,
        withdrawal_cap: 60,
        inflation_rate: 22,
        stock_weight: 900,
        bond_weight: 100,
        horizon: 40,
        target_year: 14,
        trial_count: 100_000,
    }
}

/// The percentiles the report lists, in whole percent, ascending.
pub fn default_percentiles() -> (v: Vec<u64>)
    ensures
        v@ == seq![1u64, 10, 25, 50, 75, 90, 99],
{
    let v: Vec<u64> = vec![1, 10, 25, 50, 75, 90, 99];
    proof {
        assert(v@ =~= seq![1u64, 10, 25, 50, 75, 90, 99]);
    }
    v
}

} // verus!
