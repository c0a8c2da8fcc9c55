//! Descriptive statistics of one metric over all successful requests.

use vstd::multiset::*;
use vstd::prelude::*;
use vstd::relations::*;
use vstd::seq_lib::*;

verus! {

broadcast use {group_to_multiset_ensures, group_multiset_axioms};

/// An exact non-negative rational `num / den` of wide integers.
#[derive(Clone, Copy, Debug, PartialEq, Eq, Structural)]
pub struct WideRatio {
    pub num: u128,
    pub den: u128,
}

/// The values at the 1st, 5th, 10th, 25th, 50th, 75th, 90th, 95th and 99th
/// percentiles.
#[derive(Clone, Copy, Debug, PartialEq, Eq, Structural)]
pub struct Quantiles {
    pub p1: u64,
    pub p5: u64,
    pub p10: u64,
    pub p25: u64,
    pub p50: u64,
    pub p75: u64,
    pub p90: u64,
    pub p95: u64,
    pub p99: u64,
}

impl Default for Quantiles {
    /// All percentiles zero: the quantiles of an empty sample.
    fn default() -> (r: Quantiles)
        ensures
            r == (Quantiles { p1: 0, p5: 0, p10: 0, p25: 0, p50: 0, p75: 0, p90: 0, p95: 0, p99: 0 }),
    {
        Quantiles { p1: 0, p5: 0, p10: 0, p25: 0, p50: 0, p75: 0, p90: 0, p95: 0, p99: 0 }
    }
}

/// Descriptive statistics of a sample. A sample with no values has `count`
/// 0 and every other field 0: it is marked as having no data.
#[derive(Clone, Copy, Debug, PartialEq, Eq, Structural)]
pub struct Stats {
    pub count: u64,
    /// The sum of the values; the mean is `sum / count`.
    pub sum: u128,
    pub min: u64,
    pub max: u64,
    pub quantiles: Quantiles,
    /// The sample variance (denominator `count - 1`; 0 for fewer than two
    /// values), absent when its exact terms do not fit in 128 bits.
    pub variance: Option<WideRatio>,
}

impl Stats {
    /// Whether the sample had any values.
    pub fn has_data(&self) -> (r: bool)
        ensures
            r == (self.count > 0),
    {
        self.count > 0
    }
}

pub open spec fn leq_u64() -> spec_fn(u64, u64) -> bool {
    |a: u64, b: u64| a <= b
}

/// The values in ascending order.
pub open spec fn sorted_values(s: Seq<u64>) -> Seq<u64> {
    s.sort_by(leq_u64())
}

pub open spec fn is_sorted(s: Seq<u64>) -> bool {
    forall|i: int, j: int| 0 <= i <= j < s.len() ==> s[i] <= s[j]
}

pub open spec fn seq_sum(s: Seq<u64>) -> int
    decreases s.len(),
{
    if s.len() == 0 {
        0
    } else {
        seq_sum(s.drop_last()) + s.last()
    }
}

pub open spec fn sq_sum(s: Seq<u64>) -> int
    decreases s.len(),
{
    if s.len() == 0 {
        0
    } else {
        sq_sum(s.drop_last()) + s.last() * s.last()
    }
}

/// The index of the `pct`-th percentile in a sorted sample of `n` values.
pub open spec fn quantile_index(n: int, pct: int) -> int {
    (n - 1) * pct / 100
}

/// The `pct`-th percentile of a sorted sample: 0 when it is empty.
pub open spec fn percentile_of(sorted: Seq<u64>, pct: int) -> u64 {
    if sorted.len() == 0 {
        0
    } else {
        sorted[quantile_index(sorted.len() as int, pct)]
    }
}

pub open spec fn quantiles_of(sorted: Seq<u64>) -> Quantiles {
    Quantiles {
        p1: percentile_of(sorted, 1),
        p5: percentile_of(sorted, 5),
        p10: percentile_of(sorted, 10),
        p25: percentile_of(sorted, 25),
        p50: percentile_of(sorted, 50),
        p75: percentile_of(sorted, 75),
        p90: percentile_of(sorted, 90),
        p95: percentile_of(sorted, 95),
        p99: percentile_of(sorted, 99),
    }
}

/// The terms of the sample variance `(n * Σx² - (Σx)²) / (n * (n - 1))`.
pub open spec fn variance_terms(s: Seq<u64>) -> (int, int) {
    let n = s.len() as int;
    (n * sq_sum(s) - seq_sum(s) * seq_sum(s), n * (n - 1))
}

/// Whether the variance's terms, and the steps that compute them, fit in 128
/// bits.
pub open spec fn variance_fits(s: Seq<u64>) -> bool {
    let n = s.len() as int;
    &&& sq_sum(s) <= u128::MAX
    &&& n * sq_sum(s) <= u128::MAX
    &&& seq_sum(s) * seq_sum(s) <= u128::MAX
    &&& n * sq_sum(s) >= seq_sum(s) * seq_sum(s)
}

/// The statistics of the sample `s`.
pub open spec fn stats_of(s: Seq<u64>, r: Stats) -> bool {
    let sorted = sorted_values(s);
    if s.len() == 0 {
        r == Stats {
            count: 0,
            sum: 0,
            min: 0,
            max: 0,
            quantiles: quantiles_of(sorted),
            variance: Some(WideRatio { num: 0, den: 1 }),
        }
    } else {
        &&& r.count == s.len()
        &&& r.sum == seq_sum(s)
        &&& r.min == sorted[0]
        &&& r.max == sorted.last()
        &&& r.quantiles == quantiles_of(sorted)
        &&& if s.len() < 2 {
            r.variance == Some(WideRatio { num: 0, den: 1 })
        } else if variance_fits(s) {
            r.variance == Some(
                WideRatio {
                    num: variance_terms(s).0 as u128,
                    den: variance_terms(s).1 as u128,
                },
            )
        } else {
            r.variance is None
        }
    }
}

proof fn lemma_sorted_len(s: Seq<u64>)
    ensures
        sorted_values(s).len() == s.len(),
        is_sorted(sorted_values(s)),
{
    lemma_leq_total();
    s.lemma_sort_by_ensures(leq_u64());
    let t = sorted_values(s);
    assert(s.to_multiset().len() == t.to_multiset().len());
    assert forall|i: int, j: int| 0 <= i <= j < t.len() implies t[i] <= t[j] by {
        if i < j {
            assert(leq_u64()(t[i], t[j]));
        }
    }
}

proof fn lemma_leq_total()
    ensures
        total_ordering(leq_u64()),
{
}

proof fn lemma_insert_multiset(s: Seq<u64>, i: int, x: u64)
    requires
        0 <= i <= s.len(),
    ensures
        s.insert(i, x).to_multiset() == s.to_multiset().insert(x),
{
    let t = s.insert(i, x);
    assert(t.remove(i) =~= s);
    assert(t[i] == x);
    assert(t.to_multiset().remove(x) == s.to_multiset());
    assert(t.to_multiset().count(x) > 0);
    assert(t.to_multiset() =~= s.to_multiset().insert(x));
}

/// Sorts the values in ascending order.
pub fn sort_values(values: &Vec<u64>) -> (r: Vec<u64>)
    ensures
        r@ == sorted_values(values@),
{
    let n = values.len();
    let mut out: Vec<u64> = Vec::new();
    let mut i: usize = 0;
    while i < n
        invariant
            n == values@.len(),
            0 <= i <= n,
            out@.len() == i,
            is_sorted(out@),
            out@.to_multiset() == values@.take(i as int).to_multiset(),
        decreases n - i,
    {
        let x = values[i];
        let mut pos: usize = 0;
        while pos < out.len() && out[pos] <= x
            invariant
                0 <= pos <= out@.len(),
                forall|k: int| 0 <= k < pos ==> out@[k] <= x,
            decreases out@.len() - pos,
        {
            pos = pos + 1;
        }
        let ghost before = out@;
        out.insert(pos, x);
        proof {
            lemma_insert_multiset(before, pos as int, x);
            assert(values@.take(i + 1) =~= values@.take(i as int).push(x));
            assert forall|a: int, b: int| 0 <= a <= b < out@.len() implies out@[a] <= out@[b] by {
                if b < pos {
                } else if a > pos {
                } else if a == pos && b > pos {
                    assert(out@[b] == before[b - 1]);
                    assert(x < before[pos as int]);
                } else if b == pos && a < pos {
                }
            }
        }
        i = i + 1;
    }
    proof {
        assert(values@.take(n as int) =~= values@);
        lemma_leq_total();
        values@.lemma_sort_by_ensures(leq_u64());
        assert(sorted_by(out@, leq_u64()));
        lemma_sorted_unique(out@, sorted_values(values@), leq_u64());
    }
    out
}

proof fn lemma_quantile_index_bounds(n: int, pct: int)
    requires
        n >= 1,
        0 <= pct <= 100,
    ensures
        0 <= quantile_index(n, pct) <= n - 1,
{
    assert(0 <= (n - 1) * pct <= (n - 1) * 100) by (nonlinear_arith)
        requires
            n >= 1,
            0 <= pct <= 100,
    ;
}

proof fn lemma_quantile_index_monotone(n: int, p: int, q: int)
    requires
        n >= 1,
        0 <= p <= q <= 100,
    ensures
        quantile_index(n, p) <= quantile_index(n, q),
{
    assert((n - 1) * p <= (n - 1) * q) by (nonlinear_arith)
        requires
            n >= 1,
            p <= q,
    ;
    vstd::arithmetic::div_mod::lemma_div_is_ordered((n - 1) * p, (n - 1) * q, 100);
}

/// The `pct`-th percentile of an ascending sample: the value at index
/// `floor((n - 1) * pct / 100)`, or 0 when the sample is empty.
pub fn percentile(sorted: &Vec<u64>, pct: u64) -> (r: u64)
    requires
        pct <= 100,
    ensures
        r == percentile_of(sorted@, pct as int),
{
    let n = sorted.len();
    if n == 0 {
        return 0;
    }
    proof {
        lemma_quantile_index_bounds(n as int, pct as int);
    }
    let idx = ((n - 1) as u128 * pct as u128 / 100) as usize;
    sorted[idx]
}

proof fn lemma_sums_step(s: Seq<u64>, i: int)
    requires
        0 <= i < s.len(),
    ensures
        seq_sum(s.take(i + 1)) == seq_sum(s.take(i)) + s[i],
        sq_sum(s.take(i + 1)) == sq_sum(s.take(i)) + s[i] * s[i],
{
    assert(s.take(i + 1).drop_last() =~= s.take(i));
}

proof fn lemma_sum_bound(s: Seq<u64>)
    ensures
        0 <= seq_sum(s) <= s.len() * u64::MAX,
        0 <= sq_sum(s),
    decreases s.len(),
{
    if s.len() > 0 {
        lemma_sum_bound(s.drop_last());
        assert(s.last() * s.last() >= 0) by (nonlinear_arith);
    }
}

/// Computes the statistics of a sample.
pub fn describe(values: &Vec<u64>) -> (r: Stats)
    ensures
        stats_of(values@, r),
{
    let sorted = sort_values(values);
    let n = sorted.len();
    proof {
        lemma_sorted_len(values@);
    }
    if n == 0 {
        let q = Quantiles::default();
        return Stats {
            count: 0,
            sum: 0,
            min: 0,
            max: 0,
            quantiles: q,
            variance: Some(WideRatio { num: 0, den: 1 }),
        };
    }
    let mut sum: u128 = 0;
    let mut sq: Option<u128> = Some(0);
    let mut i: usize = 0;
    while i < n
        invariant
            n == values@.len(),
            0 <= i <= n,
            sum == seq_sum(values@.take(i as int)),
            sq matches Some(v) ==> v == sq_sum(values@.take(i as int)),
            sq is None ==> sq_sum(values@.take(i as int)) > u128::MAX,
        decreases n - i,
    {
        let x = values[i];
        proof {
            lemma_sums_step(values@, i as int);
            lemma_sum_bound(values@.take(i + 1));
            assert((i + 1) * u64::MAX <= u128::MAX) by (nonlinear_arith)
                requires
                    i < n,
                    n <= usize::MAX,
            ;
            assert(x * x <= u128::MAX) by (nonlinear_arith)
                requires
                    x <= u64::MAX,
            ;
            lemma_sum_bound(values@.take(i as int));
            lemma_sq_sum_monotone(values@, i as int);
        }
        sum = sum + x as u128;
        let xx: u128 = x as u128 * x as u128;
        sq = match sq {
            Some(v) => v.checked_add(xx),
            None => None,
        };
        i = i + 1;
    }
    proof {
        assert(values@.take(n as int) =~= values@);
    }
    let variance = if n < 2 {
        Some(WideRatio { num: 0, den: 1 })
    } else {
        match sq {
            None => None,
            Some(q) => {
                let nn = n as u128;
                match (nn.checked_mul(q), sum.checked_mul(sum)) {
                    (Some(a), Some(b)) => {
                        if a >= b {
                            proof {
                                assert(nn * (nn - 1) <= u128::MAX) by (nonlinear_arith)
                                    requires
                                        nn <= usize::MAX,
                                        nn >= 2,
                                ;
                            }
                            Some(WideRatio { num: a - b, den: nn * (nn - 1) })
                        } else {
                            None
                        }
                    },
                    _ => None,
                }
            },
        }
    };
    proof {
        lemma_quantile_index_bounds(n as int, 1);
        lemma_quantile_index_bounds(n as int, 99);
    }
    Stats {
        count: n as u64,
        sum,
        min: sorted[0],
        max: sorted[n - 1],
        quantiles: Quantiles {
            p1: percentile(&sorted, 1),
            p5: percentile(&sorted, 5),
            p10: percentile(&sorted, 10),
            p25: percentile(&sorted, 25),
            p50: percentile(&sorted, 50),
            p75: percentile(&sorted, 75),
            p90: percentile(&sorted, 90),
            p95: percentile(&sorted, 95),
            p99: percentile(&sorted, 99),
        },
        variance,
    }
}

proof fn lemma_sq_sum_monotone(s: Seq<u64>, i: int)
    requires
        0 <= i < s.len(),
    ensures
        sq_sum(s.take(i)) <= sq_sum(s.take(i + 1)),
{
    lemma_sums_step(s, i);
    assert(s[i] * s[i] >= 0) by (nonlinear_arith);
}

/// Quantiles never decrease from the minimum through the percentiles to the
/// maximum.
pub proof fn law_quantiles_monotone(s: Seq<u64>, r: Stats)
    requires
        stats_of(s, r),
    ensures
        r.min <= r.quantiles.p1,
        r.quantiles.p1 <= r.quantiles.p5,
        r.quantiles.p5 <= r.quantiles.p10,
        r.quantiles.p10 <= r.quantiles.p25,
        r.quantiles.p25 <= r.quantiles.p50,
        r.quantiles.p50 <= r.quantiles.p75,
        r.quantiles.p75 <= r.quantiles.p90,
        r.quantiles.p90 <= r.quantiles.p95,
        r.quantiles.p95 <= r.quantiles.p99,
        r.quantiles.p99 <= r.max,
{
    let t = sorted_values(s);
    lemma_sorted_len(s);
    if s.len() > 0 {
        let n = s.len() as int;
        lemma_quantile_index_bounds(n, 1);
        lemma_quantile_index_bounds(n, 99);
        lemma_quantile_index_monotone(n, 1, 5);
        lemma_quantile_index_monotone(n, 5, 10);
        lemma_quantile_index_monotone(n, 10, 25);
        lemma_quantile_index_monotone(n, 25, 50);
        lemma_quantile_index_monotone(n, 50, 75);
        lemma_quantile_index_monotone(n, 75, 90);
        lemma_quantile_index_monotone(n, 90, 95);
        lemma_quantile_index_monotone(n, 95, 99);
    }
}

} // verus!
