//! Run-level aggregation: per-metric statistics, totals, rates and the
//! grouping of error messages.

use crate::profile::{BenchmarkResult, NANOS_PER_SEC};
use crate::pump::RunRecord;
use crate::stats::{describe, stats_of, Stats, WideRatio};
use vstd::prelude::*;

verus! {

/// The successful results among the records, in order.
pub open spec fn oks(rs: Seq<RunRecord>) -> Seq<BenchmarkResult>
    decreases rs.len(),
{
    if rs.len() == 0 {
        Seq::empty()
    } else {
        let p = oks(rs.drop_last());
        match rs.last() {
            Ok(b) => p.push(b),
            Err(_) => p,
        }
    }
}

/// The times to first content token of the results that have one.
pub open spec fn ttfos(bs: Seq<BenchmarkResult>) -> Seq<u64>
    decreases bs.len(),
{
    if bs.len() == 0 {
        Seq::empty()
    } else {
        let p = ttfos(bs.drop_last());
        match bs.last().ttfo_ns {
            Some(t) => p.push(t),
            None => p,
        }
    }
}

/// `num / den` rounded down, scaled by `scale`, capped at `u64::MAX`; 0
/// when `den` is zero.
pub open spec fn scaled_floor(num: int, den: int, scale: int) -> u64 {
    if den == 0 {
        0
    } else if num * scale / den > u64::MAX {
        u64::MAX
    } else {
        (num * scale / den) as u64
    }
}

/// Inter-token latency in whole nanoseconds.
pub open spec fn inter_token_ns(b: BenchmarkResult) -> u64 {
    scaled_floor(b.inter_token_latency_ns.num as int, b.inter_token_latency_ns.den as int, 1)
}

/// Inter-event latency in whole nanoseconds.
pub open spec fn inter_event_ns(b: BenchmarkResult) -> u64 {
    scaled_floor(b.inter_event_latency_ns.num as int, b.inter_event_latency_ns.den as int, 1)
}

/// Throughput in whole thousandths of a token per second.
pub open spec fn throughput_milli(b: BenchmarkResult) -> u64 {
    scaled_floor(b.throughput.num as int, b.throughput.den as int, 1000)
}

pub open spec fn sum_output(bs: Seq<BenchmarkResult>) -> int
    decreases bs.len(),
{
    if bs.len() == 0 {
        0
    } else {
        sum_output(bs.drop_last()) + bs.last().output_tokens
    }
}

pub open spec fn sum_total(bs: Seq<BenchmarkResult>) -> int
    decreases bs.len(),
{
    if bs.len() == 0 {
        0
    } else {
        sum_total(bs.drop_last()) + bs.last().total_tokens
    }
}

/// `num * scale / den` as an exact ratio, or `0 / 1` when `den` is zero.
pub open spec fn rate_of(num: int, den: int, scale: int) -> WideRatio {
    if den == 0 {
        WideRatio { num: 0, den: 1 }
    } else {
        WideRatio { num: (num * scale) as u128, den: den as u128 }
    }
}

/// The run-level summary.
pub struct RunSummary {
    pub num_requests: u64,
    pub num_completed: u64,
    pub num_errors: u64,
    /// Errors per request dispatched.
    pub error_rate: WideRatio,
    /// Wall time of the whole run, in nanoseconds of a monotonic clock.
    pub duration_ns: u64,
    pub total_output_tokens: u128,
    pub total_tokens: u128,
    /// Completed requests per second.
    pub request_throughput: WideRatio,
    /// Output tokens per second over the whole run.
    pub output_token_throughput: WideRatio,
    /// All tokens per second over the whole run.
    pub total_token_throughput: WideRatio,
    /// Request latency, in nanoseconds.
    pub latency: Stats,
    /// Time to first token, in nanoseconds.
    pub ttft: Stats,
    /// Time to first content token, in nanoseconds; absent when no request
    /// streamed content.
    pub ttfo: Option<Stats>,
    /// Inter-token latency, in whole nanoseconds.
    pub inter_token: Stats,
    /// Inter-event latency, in whole nanoseconds.
    pub inter_event: Stats,
    /// Per-request throughput, in thousandths of a token per second.
    pub throughput: Stats,
    pub input_tokens: Stats,
    pub output_tokens: Stats,
    pub reasoning_tokens: Stats,
}

/// The summary of the records of a run that took `duration_ns`.
pub open spec fn summary_of(rs: Seq<RunRecord>, duration_ns: u64, s: RunSummary) -> bool {
    let bs = oks(rs);
    &&& s.num_requests == rs.len()
    &&& s.num_completed == bs.len()
    &&& s.num_errors == rs.len() - bs.len()
    &&& s.error_rate == (if rs.len() == 0 {
        WideRatio { num: 0, den: 1 }
    } else {
        WideRatio { num: (rs.len() - bs.len()) as u128, den: rs.len() as u128 }
    })
    &&& s.duration_ns == duration_ns
    &&& s.total_output_tokens == sum_output(bs)
    &&& s.total_tokens == sum_total(bs)
    &&& s.request_throughput == rate_of(bs.len() as int, duration_ns as int, NANOS_PER_SEC as int)
    &&& s.output_token_throughput == rate_of(sum_output(bs), duration_ns as int, NANOS_PER_SEC as int)
    &&& s.total_token_throughput == rate_of(sum_total(bs), duration_ns as int, NANOS_PER_SEC as int)
    &&& stats_of(bs.map_values(|b: BenchmarkResult| b.total_latency_ns), s.latency)
    &&& stats_of(bs.map_values(|b: BenchmarkResult| b.ttft_ns), s.ttft)
    &&& (if ttfos(bs).len() == 0 {
        s.ttfo is None
    } else {
        s.ttfo matches Some(t) && stats_of(ttfos(bs), t)
    })
    &&& stats_of(bs.map_values(|b: BenchmarkResult| inter_token_ns(b)), s.inter_token)
    &&& stats_of(bs.map_values(|b: BenchmarkResult| inter_event_ns(b)), s.inter_event)
    &&& stats_of(bs.map_values(|b: BenchmarkResult| throughput_milli(b)), s.throughput)
    &&& stats_of(bs.map_values(|b: BenchmarkResult| b.input_tokens as u64), s.input_tokens)
    &&& stats_of(bs.map_values(|b: BenchmarkResult| b.output_tokens as u64), s.output_tokens)
    &&& stats_of(bs.map_values(|b: BenchmarkResult| b.reasoning_tokens as u64), s.reasoning_tokens)
}

fn floor_scaled(num: u64, den: u64, scale: u64) -> (r: u64)
    requires
        scale <= 1000,
    ensures
        r == scaled_floor(num as int, den as int, scale as int),
{
    if den == 0 {
        return 0;
    }
    proof {
        assert(num * scale <= u64::MAX * 1000) by (nonlinear_arith)
            requires
                scale <= 1000,
        ;
    }
    let q: u128 = (num as u128 * scale as u128) / den as u128;
    if q > u64::MAX as u128 {
        u64::MAX
    } else {
        q as u64
    }
}

fn rate(num: u128, den: u64) -> (r: WideRatio)
    requires
        num <= u64::MAX * u32::MAX,
    ensures
        r == rate_of(num as int, den as int, NANOS_PER_SEC as int),
{
    if den == 0 {
        WideRatio { num: 0, den: 1 }
    } else {
        proof {
            assert(num * NANOS_PER_SEC <= u128::MAX) by (nonlinear_arith)
                requires
                    num <= u64::MAX * u32::MAX,
            ;
        }
        WideRatio { num: num * NANOS_PER_SEC as u128, den: den as u128 }
    }
}

proof fn lemma_sums_bound(bs: Seq<BenchmarkResult>)
    ensures
        0 <= sum_output(bs) <= bs.len() * u32::MAX,
        0 <= sum_total(bs) <= bs.len() * u32::MAX,
    decreases bs.len(),
{
    if bs.len() > 0 {
        lemma_sums_bound(bs.drop_last());
    }
}

/// Aggregates the records of a run that took `duration_ns`.
pub fn summarize(records: &Vec<RunRecord>, duration_ns: u64) -> (r: RunSummary)
    ensures
        summary_of(records@, duration_ns, r),
{
    let ghost rs = records@;
    let n = records.len();
    let mut latency: Vec<u64> = Vec::new();
    let mut ttft: Vec<u64> = Vec::new();
    let mut ttfo: Vec<u64> = Vec::new();
    let mut inter_token: Vec<u64> = Vec::new();
    let mut inter_event: Vec<u64> = Vec::new();
    let mut throughput: Vec<u64> = Vec::new();
    let mut input: Vec<u64> = Vec::new();
    let mut output: Vec<u64> = Vec::new();
    let mut reasoning: Vec<u64> = Vec::new();
    let mut out_sum: u128 = 0;
    let mut total_sum: u128 = 0;
    let mut completed: usize = 0;
    let mut i: usize = 0;
    while i < n
        invariant
            n == rs.len(),
            records@ == rs,
            0 <= i <= n,
            completed == oks(rs.take(i as int)).len(),
            completed <= i,
            latency@ == oks(rs.take(i as int)).map_values(|b: BenchmarkResult| b.total_latency_ns),
            ttft@ == oks(rs.take(i as int)).map_values(|b: BenchmarkResult| b.ttft_ns),
            ttfo@ == ttfos(oks(rs.take(i as int))),
            inter_token@ == oks(rs.take(i as int)).map_values(
                |b: BenchmarkResult| inter_token_ns(b),
            ),
            inter_event@ == oks(rs.take(i as int)).map_values(
                |b: BenchmarkResult| inter_event_ns(b),
            ),
            throughput@ == oks(rs.take(i as int)).map_values(
                |b: BenchmarkResult| throughput_milli(b),
            ),
            input@ == oks(rs.take(i as int)).map_values(|b: BenchmarkResult| b.input_tokens as u64),
            output@ == oks(rs.take(i as int)).map_values(
                |b: BenchmarkResult| b.output_tokens as u64,
            ),
            reasoning@ == oks(rs.take(i as int)).map_values(
                |b: BenchmarkResult| b.reasoning_tokens as u64,
            ),
            out_sum == sum_output(oks(rs.take(i as int))),
            total_sum == sum_total(oks(rs.take(i as int))),
        decreases n - i,
    {
        proof {
            assert(rs.take(i + 1).drop_last() =~= rs.take(i as int));
            lemma_sums_bound(oks(rs.take(i as int)));
            assert(i * u32::MAX + u32::MAX <= u128::MAX) by (nonlinear_arith)
                requires
                    i <= usize::MAX,
            ;
            assert(completed * u32::MAX <= i * u32::MAX) by (nonlinear_arith)
                requires
                    completed <= i,
            ;
        }
        match &records[i] {
            Ok(b) => {
                let ghost bs = oks(rs.take(i as int));
                latency.push(b.total_latency_ns);
                ttft.push(b.ttft_ns);
                match b.ttfo_ns {
                    Some(t) => ttfo.push(t),
                    None => {},
                }
                inter_token.push(
                    floor_scaled(b.inter_token_latency_ns.num, b.inter_token_latency_ns.den, 1),
                );
                inter_event.push(
                    floor_scaled(b.inter_event_latency_ns.num, b.inter_event_latency_ns.den, 1),
                );
                throughput.push(floor_scaled(b.throughput.num, b.throughput.den, 1000));
                input.push(b.input_tokens as u64);
                output.push(b.output_tokens as u64);
                reasoning.push(b.reasoning_tokens as u64);
                out_sum = out_sum + b.output_tokens as u128;
                total_sum = total_sum + b.total_tokens as u128;
                completed = completed + 1;
                proof {
                    let bs2 = bs.push(*b);
                    assert(bs2.drop_last() =~= bs);
                    assert(latency@ =~= bs2.map_values(|b: BenchmarkResult| b.total_latency_ns));
                    assert(ttft@ =~= bs2.map_values(|b: BenchmarkResult| b.ttft_ns));
                    assert(inter_token@ =~= bs2.map_values(|b: BenchmarkResult| inter_token_ns(b)));
                    assert(inter_event@ =~= bs2.map_values(|b: BenchmarkResult| inter_event_ns(b)));
                    assert(throughput@ =~= bs2.map_values(|b: BenchmarkResult| throughput_milli(b)));
                    assert(input@ =~= bs2.map_values(|b: BenchmarkResult| b.input_tokens as u64));
                    assert(output@ =~= bs2.map_values(|b: BenchmarkResult| b.output_tokens as u64));
                    assert(reasoning@ =~= bs2.map_values(
                        |b: BenchmarkResult| b.reasoning_tokens as u64,
                    ));
                }
            },
            Err(_) => {},
        }
        i = i + 1;
    }
    proof {
        assert(rs.take(n as int) =~= rs);
        lemma_sums_bound(oks(rs));
        assert(n * u32::MAX <= u64::MAX * u32::MAX) by (nonlinear_arith)
            requires
                n <= usize::MAX,
        ;
    }
    let errors = n - completed;
    let error_rate = if n == 0 {
        WideRatio { num: 0, den: 1 }
    } else {
        WideRatio { num: errors as u128, den: n as u128 }
    };
    let ttfo_stats = if ttfo.len() == 0 {
        None
    } else {
        Some(describe(&ttfo))
    };
    RunSummary {
        num_requests: n as u64,
        num_completed: completed as u64,
        num_errors: errors as u64,
        error_rate,
        duration_ns,
        total_output_tokens: out_sum,
        total_tokens: total_sum,
        request_throughput: rate(completed as u128, duration_ns),
        output_token_throughput: rate(out_sum, duration_ns),
        total_token_throughput: rate(total_sum, duration_ns),
        latency: describe(&latency),
        ttft: describe(&ttft),
        ttfo: ttfo_stats,
        inter_token: describe(&inter_token),
        inter_event: describe(&inter_event),
        throughput: describe(&throughput),
        input_tokens: describe(&input),
        output_tokens: describe(&output),
        reasoning_tokens: describe(&reasoning),
    }
}

// ---------------------------------------------------------------------------
// Errors

/// How many records failed with a message whose text is `m`.
pub open spec fn error_count(rs: Seq<RunRecord>, m: Seq<char>) -> nat
    decreases rs.len(),
{
    if rs.len() == 0 {
        0
    } else {
        error_count(rs.drop_last(), m) + match rs.last() {
            Err(e) => if e@ == m {
                1nat
            } else {
                0nat
            },
            Ok(_) => 0nat,
        }
    }
}

/// The distinct error messages of a run, in order of first appearance, each
/// with the number of requests that failed with it.
pub struct ErrorSummary {
    pub messages: Vec<String>,
    pub counts: Vec<u64>,
}

/// `e` groups the error messages of `rs`.
pub open spec fn groups_errors(rs: Seq<RunRecord>, e: ErrorSummary) -> bool {
    &&& e.messages@.len() == e.counts@.len()
    &&& forall|k: int|
        0 <= k < e.counts@.len() ==> #[trigger] e.counts@[k] == error_count(rs, e.messages@[k]@)
    &&& forall|k: int, j: int|
        0 <= k < j < e.messages@.len() ==> e.messages@[k]@ != e.messages@[j]@
    &&& forall|i: int|
        0 <= i < rs.len() && rs[i] is Err ==> exists|k: int|
            0 <= k < e.messages@.len() && e.messages@[k]@ == (#[trigger] rs[i])->Err_0@
}

/// Groups identical error messages with their counts.
pub fn error_summary(records: &Vec<RunRecord>) -> (r: ErrorSummary)
    ensures
        groups_errors(records@, r),
{
    let ghost rs = records@;
    let n = records.len();
    let mut messages: Vec<String> = Vec::new();
    let mut counts: Vec<u64> = Vec::new();
    let mut i: usize = 0;
    while i < n
        invariant
            n == rs.len(),
            records@ == rs,
            0 <= i <= n,
            groups_errors(rs.take(i as int), ErrorSummary { messages, counts }),
            forall|k: int| 0 <= k < counts@.len() ==> #[trigger] counts@[k] <= i,
        decreases n - i,
    {
        let ghost pre = rs.take(i as int);
        let ghost post = rs.take(i + 1);
        proof {
            assert(post.drop_last() =~= pre);
        }
        match &records[i] {
            Ok(_) => {
                proof {
                    assert forall|k: int| 0 <= k < counts@.len() implies #[trigger] counts@[k]
                        == error_count(post, messages@[k]@) by {}
                    assert forall|j: int| 0 <= j < post.len() && post[j] is Err implies exists|k: int|
                        0 <= k < messages@.len() && messages@[k]@ == (#[trigger] post[j])->Err_0@ by {
                        assert(pre[j] == post[j]);
                    }
                }
            },
            Err(e) => {
                let mut k: usize = 0;
                while k < messages.len() && !(messages[k] == *e)
                    invariant
                        0 <= k <= messages@.len(),
                        forall|j: int| 0 <= j < k ==> messages@[j]@ != e@,
                    decreases messages@.len() - k,
                {
                    k = k + 1;
                }
                if k < messages.len() {
                    let c = counts[k];
                    counts.set(k, c + 1);
                    proof {
                        assert forall|j: int| 0 <= j < counts@.len() implies #[trigger] counts@[j]
                            == error_count(post, messages@[j]@) by {
                            if j != k {
                                assert(messages@[j]@ != messages@[k as int]@);
                            }
                        }
                        assert forall|j: int| 0 <= j < post.len() && post[j] is Err implies exists|m: int|
                            0 <= m < messages@.len() && messages@[m]@ == (#[trigger] post[j])->Err_0@ by {
                            if j < i {
                                assert(pre[j] == post[j]);
                            } else {
                                assert(messages@[k as int]@ == post[j]->Err_0@);
                            }
                        }
                    }
                } else {
                    let ghost old_counts = counts@;
                    let ghost old_messages = messages@;
                    messages.push(e.clone());
                    counts.push(1);
                    proof {
                        assert(error_count(pre, e@) == 0) by {
                            lemma_error_count_absent(pre, e@);
                        }
                        assert forall|j: int| 0 <= j < counts@.len() implies #[trigger] counts@[j]
                            == error_count(post, messages@[j]@) by {
                            if j < old_counts.len() {
                                assert(old_messages[j]@ != e@);
                                assert(counts@[j] == old_counts[j]);
                            }
                        }
                        assert forall|a: int, b: int|
                            0 <= a < b < messages@.len() implies messages@[a]@ != messages@[b]@ by {
                            if b == old_messages.len() {
                                assert(old_messages[a]@ != e@);
                            }
                        }
                        assert forall|j: int| 0 <= j < post.len() && post[j] is Err implies exists|m: int|
                            0 <= m < messages@.len() && messages@[m]@ == (#[trigger] post[j])->Err_0@ by {
                            if j < i {
                                assert(pre[j] == post[j]);
                                let m = choose|m: int|
                                    0 <= m < old_messages.len() && old_messages[m]@ == (#[trigger] pre[j])->Err_0@;
                                assert(messages@[m] == old_messages[m]);
                            } else {
                                assert(messages@[old_messages.len() as int]@ == post[j]->Err_0@);
                            }
                        }
                    }
                }
            },
        }
        proof {
            assert(messages@.len() == counts@.len());
            assert(forall|k: int, j: int|
                0 <= k < j < messages@.len() ==> messages@[k]@ != messages@[j]@);
            assert(forall|k: int|
                0 <= k < counts@.len() ==> #[trigger] counts@[k] == error_count(post, messages@[k]@));
            assert(forall|j: int|
                0 <= j < post.len() && post[j] is Err ==> exists|k: int|
                    0 <= k < messages@.len() && messages@[k]@ == (#[trigger] post[j])->Err_0@);
        }
        i = i + 1;
    }
    proof {
        assert(rs.take(n as int) =~= rs);
    }
    ErrorSummary { messages, counts }
}

proof fn lemma_error_count_absent(rs: Seq<RunRecord>, m: Seq<char>)
    requires
        forall|i: int| 0 <= i < rs.len() && rs[i] is Err ==> (#[trigger] rs[i])->Err_0@ != m,
    ensures
        error_count(rs, m) == 0,
    decreases rs.len(),
{
    if rs.len() > 0 {
        let p = rs.drop_last();
        assert forall|i: int| 0 <= i < p.len() && p[i] is Err implies (#[trigger] p[i])->Err_0@ != m by {
            assert(p[i] == rs[i]);
        }
        lemma_error_count_absent(p, m);
    }
}

} // verus!
