//! Per-request measurement: arrivals, token counts and derived latency and
//! throughput metrics.

use crate::events::{StreamEvent, UsageReport};
use crate::tokens::count_with;
use tokenizers::Tokenizer;
use vstd::prelude::*;
use vstd::string::*;

verus! {

/// Nanoseconds in one second.
pub const NANOS_PER_SEC: u64 = 1_000_000_000;

/// An exact non-negative rational `num / den`; `den` is never zero.
#[derive(Clone, Copy, Debug, PartialEq, Eq, Structural)]
pub struct Ratio {
    pub num: u64,
    pub den: u64,
}

impl Ratio {
    pub open spec fn wf(self) -> bool {
        self.den > 0
    }

    /// The ratio `0 / 1`.
    pub fn zero() -> (r: Ratio)
        ensures
            r.num == 0,
            r.den == 1,
    {
        Ratio { num: 0, den: 1 }
    }
}

/// What a streamed piece of text was.
#[derive(Clone, Copy, Debug, PartialEq, Eq, Structural)]
pub enum ArrivalKind {
    Content,
    Reasoning,
}

/// One non-empty streamed delta, stamped with the monotonic time at which it
/// was pulled, in nanoseconds since the request started.
#[derive(Clone, Copy, Debug, PartialEq, Eq, Structural)]
pub struct Arrival {
    pub at_ns: u64,
    pub kind: ArrivalKind,
}

/// Token counts of one request.
#[derive(Clone, Copy, Debug, PartialEq, Eq, Structural)]
pub struct TokenCounts {
    pub input: u32,
    pub output: u32,
    pub reasoning: u32,
    pub total: u32,
}

/// The metrics of one successful request. Durations are in nanoseconds of a
/// monotonic clock, counted from the start of the request.
#[derive(Clone, Copy, Debug, PartialEq, Eq, Structural)]
pub struct BenchmarkResult {
    /// Time to the first arrival of any kind.
    pub ttft_ns: u64,
    /// Time to the first content arrival, if there was one.
    pub ttfo_ns: Option<u64>,
    /// Time to the end of the stream.
    pub total_latency_ns: u64,
    /// Generated tokens per second over the generation window.
    pub throughput: Ratio,
    /// Nanoseconds per generated token over the generation window.
    pub inter_token_latency_ns: Ratio,
    /// Mean gap between consecutive arrivals, in nanoseconds.
    pub inter_event_latency_ns: Ratio,
    pub input_tokens: u32,
    pub output_tokens: u32,
    pub reasoning_tokens: u32,
    pub total_tokens: u32,
    pub request_start_unix_ns: u64,
    pub request_end_unix_ns: u64,
}

/// The arrival times, in order.
pub open spec fn times(arrivals: Seq<Arrival>) -> Seq<u64> {
    arrivals.map_values(|a: Arrival| a.at_ns)
}

/// Arrival times never decrease.
pub open spec fn arrivals_sorted(arrivals: Seq<Arrival>) -> bool {
    forall|i: int, j: int| 0 <= i <= j < arrivals.len() ==> arrivals[i].at_ns <= arrivals[j].at_ns
}

/// The time of the first arrival of the given kind.
pub open spec fn first_of_kind(arrivals: Seq<Arrival>, kind: ArrivalKind) -> Option<u64>
    decreases arrivals.len(),
{
    if arrivals.len() == 0 {
        None
    } else if arrivals[0].kind == kind {
        Some(arrivals[0].at_ns)
    } else {
        first_of_kind(arrivals.drop_first(), kind)
    }
}

/// The smaller of two optional times; 0 when both are absent.
pub open spec fn min_present(a: Option<u64>, b: Option<u64>) -> u64 {
    match (a, b) {
        (Some(x), Some(y)) => if x <= y { x } else { y },
        (Some(x), None) => x,
        (None, Some(y)) => y,
        (None, None) => 0,
    }
}

/// The sum of the gaps between consecutive times.
pub open spec fn gap_sum(t: Seq<u64>) -> int
    decreases t.len(),
{
    if t.len() < 2 {
        0
    } else {
        gap_sum(t.drop_last()) + (t.last() - t[t.len() - 2])
    }
}

/// The span from the first to the last arrival; 0 with fewer than two.
pub open spec fn generation_window(arrivals: Seq<Arrival>) -> int {
    if arrivals.len() >= 2 {
        arrivals.last().at_ns - arrivals[0].at_ns
    } else {
        0
    }
}

/// Whether reasoning tokens were reported but never streamed.
pub open spec fn usage_only_reasoning(arrivals: Seq<Arrival>, counts: TokenCounts) -> bool {
    counts.reasoning > 0 && first_of_kind(arrivals, ArrivalKind::Reasoning) is None
}

/// The number of generated tokens that the generation window is charged with.
pub open spec fn generated_tokens(arrivals: Seq<Arrival>, counts: TokenCounts) -> int {
    if usage_only_reasoning(arrivals, counts) {
        counts.output as int
    } else {
        counts.output + counts.reasoning
    }
}

/// `r` is the ratio `num / den`, or `0 / 1` when `zero` holds.
pub open spec fn ratio_or_zero(r: Ratio, zero: bool, num: int, den: int) -> bool {
    if zero {
        r.num == 0 && r.den == 1
    } else {
        r.num == num && r.den == den
    }
}

/// The metrics that a request with these arrivals, end time and counts has.
pub open spec fn metrics_of(
    arrivals: Seq<Arrival>,
    end_ns: u64,
    counts: TokenCounts,
    start_unix_ns: u64,
    end_unix_ns: u64,
    r: BenchmarkResult,
) -> bool {
    let w = generation_window(arrivals);
    let g = generated_tokens(arrivals, counts);
    &&& r.ttft_ns == min_present(
        first_of_kind(arrivals, ArrivalKind::Content),
        first_of_kind(arrivals, ArrivalKind::Reasoning),
    )
    &&& r.ttfo_ns == first_of_kind(arrivals, ArrivalKind::Content)
    &&& r.total_latency_ns == end_ns
    &&& ratio_or_zero(r.throughput, w == 0, g * NANOS_PER_SEC, w)
    &&& ratio_or_zero(r.inter_token_latency_ns, w == 0 || g < 2, w, g - 1)
    &&& ratio_or_zero(
        r.inter_event_latency_ns,
        arrivals.len() < 2,
        gap_sum(times(arrivals)),
        arrivals.len() - 1,
    )
    &&& r.input_tokens == counts.input
    &&& r.output_tokens == counts.output
    &&& r.reasoning_tokens == counts.reasoning
    &&& r.total_tokens == counts.total
    &&& r.request_start_unix_ns == start_unix_ns
    &&& r.request_end_unix_ns == end_unix_ns
}

proof fn lemma_gap_sum_sorted(t: Seq<u64>)
    requires
        t.len() >= 1,
        forall|i: int, j: int| 0 <= i <= j < t.len() ==> t[i] <= t[j],
    ensures
        gap_sum(t) == t.last() - t[0],
    decreases t.len(),
{
    if t.len() >= 2 {
        lemma_gap_sum_sorted(t.drop_last());
    }
}

proof fn lemma_first_of_kind(arrivals: Seq<Arrival>, kind: ArrivalKind, i: int)
    requires
        0 <= i <= arrivals.len(),
        forall|j: int| 0 <= j < i ==> arrivals[j].kind != kind,
    ensures
        i < arrivals.len() && arrivals[i].kind == kind ==> first_of_kind(arrivals, kind) == Some(
            arrivals[i].at_ns,
        ),
        i == arrivals.len() ==> first_of_kind(arrivals, kind) is None,
    decreases i,
{
    if i > 0 {
        lemma_first_of_kind(arrivals.drop_first(), kind, i - 1);
    }
}

/// Derives the metrics of one request from its arrivals, the end of its
/// stream and its resolved token counts.
pub fn derive_metrics(
    arrivals: &Vec<Arrival>,
    end_ns: u64,
    counts: TokenCounts,
    start_unix_ns: u64,
    end_unix_ns: u64,
) -> (r: BenchmarkResult)
    requires
        arrivals_sorted(arrivals@),
    ensures
        metrics_of(arrivals@, end_ns, counts, start_unix_ns, end_unix_ns, r),
{
    let n = arrivals.len();
    let mut first_content: Option<u64> = None;
    let mut first_reasoning: Option<u64> = None;
    let mut i: usize = 0;
    while i < n
        invariant
            0 <= i <= n,
            n == arrivals@.len(),
            first_content is None ==> forall|j: int|
                0 <= j < i ==> arrivals@[j].kind != ArrivalKind::Content,
            first_content is Some ==> first_content == first_of_kind(
                arrivals@,
                ArrivalKind::Content,
            ),
            first_reasoning is None ==> forall|j: int|
                0 <= j < i ==> arrivals@[j].kind != ArrivalKind::Reasoning,
            first_reasoning is Some ==> first_reasoning == first_of_kind(
                arrivals@,
                ArrivalKind::Reasoning,
            ),
        decreases n - i,
    {
        let a = arrivals[i];
        match a.kind {
            ArrivalKind::Content => {
                if first_content.is_none() {
                    proof {
                        lemma_first_of_kind(arrivals@, ArrivalKind::Content, i as int);
                    }
                    first_content = Some(a.at_ns);
                }
            },
            ArrivalKind::Reasoning => {
                if first_reasoning.is_none() {
                    proof {
                        lemma_first_of_kind(arrivals@, ArrivalKind::Reasoning, i as int);
                    }
                    first_reasoning = Some(a.at_ns);
                }
            },
        }
        i = i + 1;
    }
    proof {
        if first_content is None {
            lemma_first_of_kind(arrivals@, ArrivalKind::Content, n as int);
        }
        if first_reasoning is None {
            lemma_first_of_kind(arrivals@, ArrivalKind::Reasoning, n as int);
        }
    }
    let ttft_ns: u64 = match (first_content, first_reasoning) {
        (Some(c), Some(r)) => if c <= r { c } else { r },
        (Some(c), None) => c,
        (None, Some(r)) => r,
        (None, None) => 0,
    };
    let window: u64 = if n >= 2 { arrivals[n - 1].at_ns - arrivals[0].at_ns } else { 0 };
    let inter_event = if n >= 2 {
        proof {
            lemma_gap_sum_sorted(times(arrivals@));
        }
        Ratio { num: window, den: (n - 1) as u64 }
    } else {
        Ratio::zero()
    };
    let only_usage = counts.reasoning > 0 && first_reasoning.is_none();
    let g: u64 = if only_usage { counts.output as u64 } else { counts.output as u64 + counts.reasoning as u64 };
    let throughput = if window > 0 {
        Ratio { num: g * NANOS_PER_SEC, den: window }
    } else {
        Ratio::zero()
    };
    let inter_token = if window > 0 && g >= 2 {
        Ratio { num: window, den: g - 1 }
    } else {
        Ratio::zero()
    };
    BenchmarkResult {
        ttft_ns,
        ttfo_ns: first_content,
        total_latency_ns: end_ns,
        throughput,
        inter_token_latency_ns: inter_token,
        inter_event_latency_ns: inter_event,
        input_tokens: counts.input,
        output_tokens: counts.output,
        reasoning_tokens: counts.reasoning,
        total_tokens: counts.total,
        request_start_unix_ns: start_unix_ns,
        request_end_unix_ns: end_unix_ns,
    }
}

// ---------------------------------------------------------------------------
// Token counts

/// `a + b + c`, or `u32::MAX` when that does not fit.
pub open spec fn saturating_sum(a: u32, b: u32, c: u32) -> u32 {
    if a + b + c > u32::MAX {
        u32::MAX
    } else {
        (a + b + c) as u32
    }
}

fn add3_saturating(a: u32, b: u32, c: u32) -> (r: u32)
    ensures
        r == saturating_sum(a, b, c),
{
    let s: u64 = a as u64 + b as u64 + c as u64;
    if s > u32::MAX as u64 {
        u32::MAX
    } else {
        s as u32
    }
}

pub open spec fn or_zero(x: Option<u32>) -> u32 {
    match x {
        Some(v) => v,
        None => 0,
    }
}

/// The counts that a server's usage report gives: reasoning tokens are taken
/// out of the completion tokens, saturating at zero, and the server's total is
/// kept when it reports one.
pub open spec fn usage_counts(u: UsageReport) -> TokenCounts {
    let reasoning = or_zero(u.reasoning_tokens);
    let completion = or_zero(u.output_tokens);
    let output = if completion >= reasoning {
        (completion - reasoning) as u32
    } else {
        0u32
    };
    let input = or_zero(u.input_tokens);
    TokenCounts {
        input,
        output,
        reasoning,
        total: match u.total_tokens {
            Some(t) => t,
            None => saturating_sum(input, output, reasoning),
        },
    }
}

/// Converts a server's usage report into token counts.
pub fn counts_from_usage(u: &UsageReport) -> (r: TokenCounts)
    ensures
        r == usage_counts(*u),
        r.output == if or_zero(u.output_tokens) >= or_zero(u.reasoning_tokens) {
            or_zero(u.output_tokens) - or_zero(u.reasoning_tokens)
        } else {
            0
        },
{
    let reasoning = match u.reasoning_tokens {
        Some(v) => v,
        None => 0,
    };
    let completion = match u.output_tokens {
        Some(v) => v,
        None => 0,
    };
    let output = if completion >= reasoning {
        completion - reasoning
    } else {
        0
    };
    let input = match u.input_tokens {
        Some(v) => v,
        None => 0,
    };
    let total = match u.total_tokens {
        Some(t) => t,
        None => add3_saturating(input, output, reasoning),
    };
    TokenCounts { input, output, reasoning, total }
}

/// The message of a request that needed the server's counts and got none.
pub open spec fn missing_usage_message() -> Seq<char> {
    "server did not return token usage"@
}

/// Counts tokens locally: the prompt, the generated text and the reasoning
/// text (none when it is empty), with their exact (saturating) sum.
pub fn local_token_counts(
    tokenizer: &Tokenizer,
    prompt: &str,
    generated: &str,
    reasoning: &str,
) -> (r: Result<TokenCounts, String>)
    ensures
        r matches Ok(c) ==> c.total == saturating_sum(c.input, c.output, c.reasoning) && (
        reasoning@.len() == 0 ==> c.reasoning == 0),
{
    let input = match count_with(tokenizer, prompt) {
        Ok(c) => c,
        Err(e) => {
            return Err(e);
        },
    };
    let output = match count_with(tokenizer, generated) {
        Ok(c) => c,
        Err(e) => {
            return Err(e);
        },
    };
    let reasoning_count = if reasoning.is_empty() {
        0
    } else {
        match count_with(tokenizer, reasoning) {
            Ok(c) => c,
            Err(e) => {
                return Err(e);
            },
        }
    };
    let total = add3_saturating(input, output, reasoning_count);
    Ok(TokenCounts { input, output, reasoning: reasoning_count, total })
}

/// Resolves the token counts of a finished request: from the server's last
/// usage report when `use_server_token_count` is set (an error when there was
/// none), else by counting locally.
pub fn resolve_token_counts(
    use_server_token_count: bool,
    usage: Option<UsageReport>,
    tokenizer: &Tokenizer,
    prompt: &str,
    generated: &str,
    reasoning: &str,
) -> (r: Result<TokenCounts, String>)
    ensures
        use_server_token_count ==> match usage {
            Some(u) => r == Ok::<TokenCounts, String>(usage_counts(u)),
            None => r matches Err(e) && e@ == missing_usage_message(),
        },
        !use_server_token_count ==> (r matches Ok(c) ==> c.total == saturating_sum(
            c.input,
            c.output,
            c.reasoning,
        ) && (reasoning@.len() == 0 ==> c.reasoning == 0)),
{
    if use_server_token_count {
        match usage {
            Some(u) => Ok(counts_from_usage(&u)),
            None => Err(String::from_str("server did not return token usage")),
        }
    } else {
        local_token_counts(tokenizer, prompt, generated, reasoning)
    }
}

// ---------------------------------------------------------------------------
// The per-request automaton

/// The time at which an arrival pulled at `now_ns` is recorded: never before
/// the previous arrival.
pub open spec fn stamp(arrivals: Seq<Arrival>, now_ns: u64) -> u64 {
    if arrivals.len() > 0 && now_ns < arrivals.last().at_ns {
        arrivals.last().at_ns
    } else {
        now_ns
    }
}

/// What one request has streamed so far.
pub struct RequestProfile {
    pub arrivals: Vec<Arrival>,
    pub generated: String,
    pub reasoning: String,
    pub usage: Option<UsageReport>,
}

impl RequestProfile {
    pub open spec fn wf(&self) -> bool {
        arrivals_sorted(self.arrivals@)
    }

    /// How the profile changes when `event` is pulled at `now_ns`.
    pub open spec fn observed(old: RequestProfile, event: StreamEvent, now_ns: u64, new: RequestProfile) -> bool {
        match event {
            StreamEvent::ContentDelta(t) => if t@.len() > 0 {
                &&& new.arrivals@ == old.arrivals@.push(
                    Arrival { at_ns: stamp(old.arrivals@, now_ns), kind: ArrivalKind::Content },
                )
                &&& new.generated@ == old.generated@ + t@
                &&& new.reasoning@ == old.reasoning@
                &&& new.usage == old.usage
            } else {
                new == old
            },
            StreamEvent::ReasoningDelta(t) => if t@.len() > 0 {
                &&& new.arrivals@ == old.arrivals@.push(
                    Arrival { at_ns: stamp(old.arrivals@, now_ns), kind: ArrivalKind::Reasoning },
                )
                &&& new.generated@ == old.generated@
                &&& new.reasoning@ == old.reasoning@ + t@
                &&& new.usage == old.usage
            } else {
                new == old
            },
            StreamEvent::Usage(u) => {
                &&& new.arrivals == old.arrivals
                &&& new.generated == old.generated
                &&& new.reasoning == old.reasoning
                &&& new.usage == Some(u)
            },
            _ => new == old,
        }
    }

    /// A profile with nothing streamed yet.
    pub fn new() -> (r: RequestProfile)
        ensures
            r.wf(),
            r.arrivals@.len() == 0,
            r.generated@.len() == 0,
            r.reasoning@.len() == 0,
            r.usage is None,
    {
        RequestProfile {
            arrivals: Vec::new(),
            generated: String::new(),
            reasoning: String::new(),
            usage: None,
        }
    }

    /// Records one event pulled from the stream at `now_ns`. An error event
    /// fails the request with its message and leaves the profile as it was.
    pub fn observe(&mut self, event: StreamEvent, now_ns: u64) -> (r: Result<(), String>)
        requires
            old(self).wf(),
        ensures
            final(self).wf(),
            match event {
                StreamEvent::ErrorEvent(m) => r == Err::<(), String>(m) && *final(self) == *old(self),
                _ => r is Ok && RequestProfile::observed(*old(self), event, now_ns, *final(self)),
            },
    {
        match event {
            StreamEvent::ContentDelta(t) => {
                if !t.as_str().is_empty() {
                    let at = self.stamp_now(now_ns);
                    self.arrivals.push(Arrival { at_ns: at, kind: ArrivalKind::Content });
                    self.generated.append(t.as_str());
                }
                Ok(())
            },
            StreamEvent::ReasoningDelta(t) => {
                if !t.as_str().is_empty() {
                    let at = self.stamp_now(now_ns);
                    self.arrivals.push(Arrival { at_ns: at, kind: ArrivalKind::Reasoning });
                    self.reasoning.append(t.as_str());
                }
                Ok(())
            },
            StreamEvent::Usage(u) => {
                self.usage = Some(u);
                Ok(())
            },
            StreamEvent::ErrorEvent(m) => Err(m),
            StreamEvent::Other => Ok(()),
        }
    }

    fn stamp_now(&self, now_ns: u64) -> (r: u64)
        requires
            self.wf(),
        ensures
            r == stamp(self.arrivals@, now_ns),
            arrivals_sorted(self.arrivals@.push(Arrival { at_ns: r, kind: ArrivalKind::Content })),
            arrivals_sorted(self.arrivals@.push(Arrival { at_ns: r, kind: ArrivalKind::Reasoning })),
    {
        let n = self.arrivals.len();
        if n > 0 && now_ns < self.arrivals[n - 1].at_ns {
            self.arrivals[n - 1].at_ns
        } else {
            now_ns
        }
    }

    /// The end of the stream as recorded: never before the last arrival.
    pub open spec fn end_stamp(&self, end_ns: u64) -> u64 {
        stamp(self.arrivals@, end_ns)
    }

    /// Finishes the request whose stream ended at `end_ns`: resolves its
    /// token counts and derives its metrics.
    pub fn finish(
        &self,
        end_ns: u64,
        use_server_token_count: bool,
        tokenizer: &Tokenizer,
        prompt: &str,
        start_unix_ns: u64,
        end_unix_ns: u64,
    ) -> (r: Result<BenchmarkResult, String>)
        requires
            self.wf(),
        ensures
            use_server_token_count && self.usage is None ==> (r matches Err(e) && e@
                == missing_usage_message()),
            use_server_token_count && self.usage is Some ==> (r matches Ok(b) && metrics_of(
                self.arrivals@,
                self.end_stamp(end_ns),
                usage_counts(self.usage->0),
                start_unix_ns,
                end_unix_ns,
                b,
            )),
            forall|i: int|
                0 <= i < self.arrivals@.len() ==> #[trigger] self.arrivals@[i].at_ns
                    <= self.end_stamp(end_ns),
            !use_server_token_count ==> (r matches Ok(b) ==> b.total_tokens == saturating_sum(
                b.input_tokens,
                b.output_tokens,
                b.reasoning_tokens,
            ) && (self.reasoning@.len() == 0 ==> b.reasoning_tokens == 0)),
            r matches Ok(b) ==> exists|c: TokenCounts|
                metrics_of(
                    self.arrivals@,
                    self.end_stamp(end_ns),
                    c,
                    start_unix_ns,
                    end_unix_ns,
                    b,
                ),
    {
        let counts = match resolve_token_counts(
            use_server_token_count,
            self.usage,
            tokenizer,
            prompt,
            self.generated.as_str(),
            self.reasoning.as_str(),
        ) {
            Ok(c) => c,
            Err(e) => {
                return Err(e);
            },
        };
        let n = self.arrivals.len();
        let end = if n > 0 && end_ns < self.arrivals[n - 1].at_ns {
            self.arrivals[n - 1].at_ns
        } else {
            end_ns
        };
        let b = derive_metrics(&self.arrivals, end, counts, start_unix_ns, end_unix_ns);
        proof {
            assert(metrics_of(self.arrivals@, self.end_stamp(end_ns), counts, start_unix_ns, end_unix_ns, b));
        }
        Ok(b)
    }
}

// ---------------------------------------------------------------------------
// Laws

proof fn lemma_first_of_kind_member(arrivals: Seq<Arrival>, kind: ArrivalKind)
    requires
        first_of_kind(arrivals, kind) is Some,
    ensures
        exists|i: int|
            0 <= i < arrivals.len() && #[trigger] arrivals[i].at_ns == first_of_kind(
                arrivals,
                kind,
            )->0,
    decreases arrivals.len(),
{
    if arrivals[0].kind != kind {
        lemma_first_of_kind_member(arrivals.drop_first(), kind);
        let i = choose|i: int|
            0 <= i < arrivals.drop_first().len() && #[trigger] arrivals.drop_first()[i].at_ns
                == first_of_kind(arrivals.drop_first(), kind)->0;
        assert(arrivals[i + 1].at_ns == first_of_kind(arrivals, kind)->0);
    } else {
        assert(arrivals[0].at_ns == first_of_kind(arrivals, kind)->0);
    }
}

/// The first token never comes after the end of the stream, nor after the
/// first content token.
pub proof fn law_first_token_order(
    arrivals: Seq<Arrival>,
    end_ns: u64,
    counts: TokenCounts,
    start_unix_ns: u64,
    end_unix_ns: u64,
    r: BenchmarkResult,
)
    requires
        arrivals_sorted(arrivals),
        forall|i: int| 0 <= i < arrivals.len() ==> #[trigger] arrivals[i].at_ns <= end_ns,
        metrics_of(arrivals, end_ns, counts, start_unix_ns, end_unix_ns, r),
    ensures
        r.ttft_ns <= r.total_latency_ns,
        r.ttfo_ns matches Some(o) ==> r.ttft_ns <= o,
{
    let c = first_of_kind(arrivals, ArrivalKind::Content);
    let q = first_of_kind(arrivals, ArrivalKind::Reasoning);
    if c is Some {
        lemma_first_of_kind_member(arrivals, ArrivalKind::Content);
    }
    if q is Some {
        lemma_first_of_kind_member(arrivals, ArrivalKind::Reasoning);
    }
}

/// Latencies and throughput are well-formed non-negative ratios.
pub proof fn law_rates_non_negative(
    arrivals: Seq<Arrival>,
    end_ns: u64,
    counts: TokenCounts,
    start_unix_ns: u64,
    end_unix_ns: u64,
    r: BenchmarkResult,
)
    requires
        arrivals_sorted(arrivals),
        metrics_of(arrivals, end_ns, counts, start_unix_ns, end_unix_ns, r),
    ensures
        r.throughput.wf() && r.throughput.num >= 0,
        r.inter_token_latency_ns.wf() && r.inter_token_latency_ns.num >= 0,
        r.inter_event_latency_ns.wf() && r.inter_event_latency_ns.num >= 0,
{
}

/// A finished request's first token never comes after the end of its stream,
/// nor after its first content token, whatever its token counts.
pub proof fn law_finished_request_order(
    p: RequestProfile,
    end_ns: u64,
    counts: TokenCounts,
    start_unix_ns: u64,
    end_unix_ns: u64,
    r: BenchmarkResult,
)
    requires
        p.wf(),
        metrics_of(p.arrivals@, p.end_stamp(end_ns), counts, start_unix_ns, end_unix_ns, r),
    ensures
        r.ttft_ns <= r.total_latency_ns,
        r.ttfo_ns matches Some(o) ==> r.ttft_ns <= o,
{
    let a = p.arrivals@;
    assert forall|i: int| 0 <= i < a.len() implies #[trigger] a[i].at_ns <= p.end_stamp(end_ns) by {
        assert(a[i].at_ns <= a[a.len() - 1].at_ns);
    }
    law_first_token_order(a, p.end_stamp(end_ns), counts, start_unix_ns, end_unix_ns, r);
}

} // verus!
