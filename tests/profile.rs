use llmnop::events::{StreamEvent, UsageReport};
use llmnop::profile::{
    counts_from_usage, derive_metrics, Arrival, ArrivalKind, BenchmarkResult, Ratio,
    RequestProfile, TokenCounts,
};

const MS: u64 = 1_000_000;

fn secs(r: Ratio) -> f64 {
    r.num as f64 / r.den as f64 / 1e9
}

fn per_sec(r: Ratio) -> f64 {
    r.num as f64 / r.den as f64
}

fn content(at_ms: u64) -> Arrival {
    Arrival { at_ns: at_ms * MS, kind: ArrivalKind::Content }
}

fn reasoning(at_ms: u64) -> Arrival {
    Arrival { at_ns: at_ms * MS, kind: ArrivalKind::Reasoning }
}

fn counts(input: u32, output: u32, reasoning: u32) -> TokenCounts {
    TokenCounts { input, output, reasoning, total: input + output + reasoning }
}

fn run(arrivals: &Vec<Arrival>, end_ms: u64, c: TokenCounts) -> BenchmarkResult {
    derive_metrics(arrivals, end_ms * MS, c, 0, 0)
}

#[test]
fn test_process_benchmark_data_multiple_arrivals() {
    let arrivals = vec![content(64), content(128), content(192)];
    let input_tokens = 10;
    let output_tokens = 3;
    let total_tokens = input_tokens + output_tokens;
    let result = derive_metrics(
        &arrivals,
        192 * MS,
        TokenCounts { input: input_tokens, output: output_tokens, reasoning: 0, total: total_tokens },
        0,
        0,
    );
    assert_eq!(result.ttft_ns, 64 * MS);
    assert_eq!(result.total_latency_ns, 192 * MS);
    // Throughput is measured over the generation window (64 ms to 192 ms).
    assert_eq!(per_sec(result.throughput), 23.4375);
    assert_eq!(result.input_tokens, 10);
    assert_eq!(result.output_tokens, 3);
    assert_eq!(result.total_tokens, 13);
    assert_eq!(secs(result.inter_token_latency_ns), 0.064);
}

#[test]
fn test_ttft_not_included_in_inter_token_latency() {
    let arrivals = vec![content(1000), content(1100), content(1200)];
    let result = run(&arrivals, 1200, TokenCounts { input: 10, output: 3, reasoning: 0, total: 13 });
    assert_eq!(result.ttft_ns, 1000 * MS);
    assert_eq!(secs(result.inter_token_latency_ns), 0.1);
}

#[test]
fn test_single_token_response() {
    let arrivals = vec![content(1000)];
    let result = run(&arrivals, 1000, TokenCounts { input: 5, output: 1, reasoning: 0, total: 6 });
    assert_eq!(result.ttft_ns, 1000 * MS);
    assert_eq!(secs(result.inter_token_latency_ns), 0.0);
}

#[test]
fn test_empty_response() {
    let arrivals = vec![];
    let result = run(&arrivals, 100, TokenCounts { input: 5, output: 0, reasoning: 0, total: 5 });
    assert_eq!(result.ttft_ns, 0);
    assert_eq!(secs(result.inter_token_latency_ns), 0.0);
}

#[test]
fn test_process_benchmark_data_zero_duration() {
    let arrivals = vec![];
    let result = run(&arrivals, 0, TokenCounts { input: 10, output: 0, reasoning: 0, total: 10 });
    assert_eq!(result.ttft_ns, 0);
    assert_eq!(result.total_latency_ns, 0);
    assert_eq!(per_sec(result.throughput), 0.0);
    assert_eq!(result.input_tokens, 10);
    assert_eq!(result.output_tokens, 0);
    assert_eq!(result.total_tokens, 10);
    assert_eq!(secs(result.inter_token_latency_ns), 0.0);
}

#[test]
fn three_content_arrivals() {
    let r = run(&vec![content(64), content(128), content(192)], 192, counts(10, 3, 0));
    assert_eq!(r.ttft_ns, 64 * MS);
    assert_eq!(r.ttfo_ns, Some(64 * MS));
    assert_eq!(r.total_latency_ns, 192 * MS);
    assert_eq!(per_sec(r.throughput), 23.4375);
    assert_eq!(secs(r.inter_token_latency_ns), 0.064);
    assert_eq!(secs(r.inter_event_latency_ns), 0.064);
}

#[test]
fn single_arrival_has_no_rates() {
    let r = run(&vec![content(1000)], 1000, counts(10, 1, 0));
    assert_eq!(r.ttft_ns, 1000 * MS);
    assert_eq!(r.ttfo_ns, Some(1000 * MS));
    assert_eq!(per_sec(r.throughput), 0.0);
    assert_eq!(secs(r.inter_token_latency_ns), 0.0);
    assert_eq!(secs(r.inter_event_latency_ns), 0.0);
}

#[test]
fn reasoning_before_content() {
    let r = run(&vec![reasoning(100), content(500)], 500, counts(10, 5, 10));
    assert_eq!(r.ttft_ns, 100 * MS);
    assert_eq!(r.ttfo_ns, Some(500 * MS));
    assert_eq!(r.output_tokens, 5);
    assert_eq!(r.reasoning_tokens, 10);
    // 15 tokens over 400 ms.
    assert_eq!(per_sec(r.throughput), 37.5);
}

#[test]
fn usage_only_reasoning_is_left_out_of_throughput() {
    let r = run(&vec![content(100), content(200)], 200, counts(10, 4, 20));
    assert_eq!(per_sec(r.throughput), 40.0);
    assert!((secs(r.inter_token_latency_ns) - 0.1 / 3.0).abs() < 1e-12);
}

#[test]
fn tail_after_generation_counts_only_in_latency() {
    let r = run(&vec![content(1000), content(1500)], 10_000, counts(10, 30, 0));
    assert_eq!(per_sec(r.throughput), 60.0);
    assert_eq!(r.total_latency_ns, 10_000 * MS);
}

#[test]
fn no_content_leaves_ttfo_undefined() {
    let r = run(&vec![reasoning(300), reasoning(400)], 900, counts(1, 0, 2));
    assert_eq!(r.ttft_ns, 300 * MS);
    assert_eq!(r.ttfo_ns, None);
}

#[test]
fn first_token_precedes_end_and_first_content() {
    let r = run(&vec![reasoning(5), content(7), reasoning(9)], 12, counts(1, 1, 2));
    assert!(r.ttft_ns <= r.total_latency_ns);
    assert!(r.ttft_ns <= r.ttfo_ns.unwrap());
    assert!(r.throughput.den > 0 && r.inter_token_latency_ns.den > 0);
    assert!(r.inter_event_latency_ns.den > 0);
    // Two gaps of 2 ms.
    assert_eq!(secs(r.inter_event_latency_ns), 0.002);
}

#[test]
fn usage_output_saturates_at_zero() {
    let u = UsageReport {
        input_tokens: Some(7),
        output_tokens: Some(3),
        reasoning_tokens: Some(5),
        total_tokens: None,
    };
    let c = counts_from_usage(&u);
    assert_eq!(c, TokenCounts { input: 7, output: 0, reasoning: 5, total: 12 });
    let u = UsageReport {
        input_tokens: Some(4),
        output_tokens: Some(6),
        reasoning_tokens: Some(2),
        total_tokens: Some(10),
    };
    assert_eq!(counts_from_usage(&u), TokenCounts { input: 4, output: 4, reasoning: 2, total: 10 });
}

#[test]
fn profile_records_arrivals_and_fails_on_error() {
    let mut p = RequestProfile::new();
    assert!(p.observe(StreamEvent::ContentDelta("hel".to_string()), 10).is_ok());
    assert!(p.observe(StreamEvent::ContentDelta(String::new()), 11).is_ok());
    assert!(p.observe(StreamEvent::ReasoningDelta("hm".to_string()), 12).is_ok());
    // A clock reading before the previous arrival is held at that arrival.
    assert!(p.observe(StreamEvent::ContentDelta("lo".to_string()), 5).is_ok());
    assert!(p.observe(StreamEvent::Other, 20).is_ok());
    assert_eq!(p.generated, "hello");
    assert_eq!(p.reasoning, "hm");
    let times: Vec<u64> = p.arrivals.iter().map(|a| a.at_ns).collect();
    assert_eq!(times, vec![10, 12, 12]);
    let err = p.observe(StreamEvent::ErrorEvent("overloaded".to_string()), 30);
    assert_eq!(err, Err("overloaded".to_string()));
    assert_eq!(p.arrivals.len(), 3);
}
