//! Percentile aggregation: sorting the collected outcomes and extracting
//! nearest-rank percentile values.

use vstd::prelude::*;
use vstd::arithmetic::div_mod::{lemma_div_is_ordered, lemma_div_pos_is_pos};
use vstd::arithmetic::mul::{lemma_mul_inequality, lemma_mul_nonnegative};
use vstd::seq_lib::group_to_multiset_ensures;

verus! {

/// Ascending order: no later outcome is smaller.
pub open spec fn sorted(s: Seq<u128>) -> bool {
    forall|i: int, j: int| 0 <= i <= j < s.len() ==> s[i] <= s[j]
}

/// Swapping two positions of a sequence leaves its multiset of values
/// unchanged.
proof fn lemma_swap_preserves_multiset(s: Seq<u128>, i: int, j: int)
    requires
        0 <= i < s.len(),
        0 <= j < s.len(),
    ensures
        s.update(i, s[j]).update(j, s[i]).to_multiset() == s.to_multiset(),
{
    broadcast use group_to_multiset_ensures;

    let s1 = s.update(i, s[j]);
    let s2 = s1.update(j, s[i]);
    if i == j {
        assert(s2 =~= s);
    } else {
        assert(s.contains(s[i]));
        assert(s1[j] == s[j]);
        assert(s2.to_multiset() =~= s.to_multiset());
    }
}

/// Sorts the outcome sequence ascending in place, keeping exactly the
/// collected values.
pub fn sort_outcomes(v: &mut Vec<u128>)
    ensures
        sorted(final(v)@),
        final(v)@.to_multiset() == old(v)@.to_multiset(),
        final(v)@.len() == old(v)@.len(),
{
    let n = v.len();
    if n <= 1 {
        return;
    }
    let mut i: usize = 1;
    while i < n
        invariant
            v@.len() == n,
            n == old(v)@.len(),
            v@.to_multiset() == old(v)@.to_multiset(),
            1 <= i <= n,
            forall|a: int, b: int| 0 <= a <= b < i ==> v@[a] <= v@[b],
        decreases n - i,
    {
        let mut j: usize = i;
        while j > 0 && v[j - 1] > v[j]
            invariant
                v@.len() == n,
                n == old(v)@.len(),
                v@.to_multiset() == old(v)@.to_multiset(),
                0 <= j <= i < n,
                forall|a: int, b: int|
                    0 <= a <= b <= i && a != j && b != j ==> v@[a] <= v@[b],
                forall|a: int| j < a <= i ==> v@[j as int] < #[trigger] v@[a],
            decreases j,
        {
            let x = v[j - 1];
            let y = v[j];
            proof {
                lemma_swap_preserves_multiset(v@, j - 1, j as int);
            }
            v.set(j - 1, y);
            v.set(j, x);
            j -= 1;
        }
        i += 1;
    }
}

/// Nearest-rank index of percentile `p` in a sample of size `n`:
/// `p * n / 100`, clamped to the last valid index.
pub open spec fn percentile_index(p: int, n: int) -> int {
    if p * n / 100 < n - 1 {
        p * n / 100
    } else {
        n - 1
    }
}

/// The nearest-rank index is a valid index of the sample.
pub proof fn lemma_percentile_index_in_range(p: int, n: int)
    requires
        0 <= p,
        1 <= n,
    ensures
        0 <= percentile_index(p, n) < n,
{
    lemma_mul_nonnegative(p, n);
    lemma_div_pos_is_pos(p * n, 100);
}

/// Nearest-rank indices are monotone in the percentile.
pub proof fn lemma_percentile_index_monotone(p1: int, p2: int, n: int)
    requires
        0 <= p1 <= p2,
        1 <= n,
    ensures
        percentile_index(p1, n) <= percentile_index(p2, n),
{
    lemma_mul_inequality(p1, p2, n);
    lemma_div_is_ordered(p1 * n, p2 * n, 100);
}

/// In a sorted sample, the reported value is monotone in the percentile.
pub proof fn lemma_percentile_values_monotone(s: Seq<u128>, p1: int, p2: int)
    requires
        sorted(s),
        s.len() >= 1,
        0 <= p1 <= p2,
    ensures
        s[percentile_index(p1, s.len() as int)] <= s[percentile_index(p2, s.len() as int)],
{
    let n = s.len() as int;
    lemma_percentile_index_in_range(p1, n);
    lemma_percentile_index_in_range(p2, n);
    lemma_percentile_index_monotone(p1, p2, n);
}

/// With a single outcome, every percentile maps to that outcome's index.
pub proof fn lemma_single_outcome_index(p: int)
    requires
        0 <= p,
    ensures
        percentile_index(p, 1) == 0,
{
    lemma_mul_nonnegative(p, 1);
    lemma_div_pos_is_pos(p * 1, 100);
}

/// The nearest-rank index of percentile `p` (whole percent) in a sample of
/// size `n`.
pub fn percentile_rank_index(p: u64, n: usize) -> (idx: usize)
    requires
        n >= 1,
    ensures
        idx == percentile_index(p as int, n as int),
        idx < n,
{
    proof {
        lemma_percentile_index_in_range(p as int, n as int);
    }
    assert((p as int) * (n as int) <= 0xffff_ffff_ffff_ffff * 0xffff_ffff_ffff_ffff)
        by (nonlinear_arith)
        requires
            0 <= p <= 0xffff_ffff_ffff_ffff,
            0 <= n <= 0xffff_ffff_ffff_ffff,
    ;
    let q: u128 = (p as u128) * (n as u128) / 100;
    if q < (n - 1) as u128 {
        q as usize
    } else {
        n - 1
    }
}

/// Reads, for each requested percentile, the nearest-rank value out of the
/// sorted outcome sequence, as ordered (percentile, value) pairs.
pub fn percentile_report(outcomes: &Vec<u128>, percentiles: &Vec<u64>) -> (report: Vec<
    (u64, u128),
>)
    requires
        outcomes@.len() >= 1,
    ensures
        report@.len() == percentiles@.len(),
        forall|k: int|
            0 <= k < report@.len()
                ==> (#[trigger] report@[k]).0 == percentiles@[k] && report@[k].1
                == outcomes@[percentile_index(percentiles@[k] as int, outcomes@.len() as int)],
{
    let mut report: Vec<(u64, u128)> = Vec::new();
    let mut k: usize = 0;
    while k < percentiles.len()
        invariant
            outcomes@.len() >= 1,
            0 <= k <= percentiles@.len(),
            report@.len() == k,
            forall|m: int|
                0 <= m < report@.len()
                    ==> (#[trigger] report@[m]).0 == percentiles@[m] && report@[m].1
                    == outcomes@[percentile_index(percentiles@[m] as int, outcomes@.len() as int)],
        decreases percentiles@.len() - k,
    {
        let p = percentiles[k];
        let idx = percentile_rank_index(p, outcomes.len());
        report.push((p, outcomes[idx]));
        k += 1;
    }
    report
}

} // verus!
