use llmnop::naming::{benchmark_slug, run_id};
use llmnop::profile::{BenchmarkResult, Ratio};
use llmnop::pump::RunRecord;
use llmnop::summary::{error_summary, summarize};

fn result(ttft: u64, ttfo: Option<u64>, latency: u64, output: u32) -> BenchmarkResult {
    BenchmarkResult {
        ttft_ns: ttft,
        ttfo_ns: ttfo,
        total_latency_ns: latency,
        throughput: Ratio { num: 3_000_000_000, den: 2 },
        inter_token_latency_ns: Ratio { num: 10, den: 3 },
        inter_event_latency_ns: Ratio { num: 0, den: 1 },
        input_tokens: 10,
        output_tokens: output,
        reasoning_tokens: 0,
        total_tokens: 10 + output,
        request_start_unix_ns: 0,
        request_end_unix_ns: 0,
    }
}

#[test]
fn summary_counts_rates_and_stats() {
    let records: Vec<RunRecord> = vec![
        Ok(result(100, Some(100), 1000, 4)),
        Err("timeout".to_string()),
        Ok(result(300, None, 2000, 6)),
        Err("timeout".to_string()),
    ];
    let s = summarize(&records, 2_000_000_000);
    assert_eq!(s.num_requests, 4);
    assert_eq!(s.num_completed, 2);
    assert_eq!(s.num_errors, 2);
    assert_eq!(s.error_rate.num as f64 / s.error_rate.den as f64, 0.5);
    assert_eq!(s.total_output_tokens, 10);
    assert_eq!(s.total_tokens, 30);
    assert_eq!(s.request_throughput.num as f64 / s.request_throughput.den as f64, 1.0);
    assert_eq!(s.output_token_throughput.num as f64 / s.output_token_throughput.den as f64, 5.0);
    assert_eq!(s.total_token_throughput.num as f64 / s.total_token_throughput.den as f64, 15.0);
    assert_eq!(s.ttft.min, 100);
    assert_eq!(s.ttft.max, 300);
    assert_eq!(s.latency.sum, 3000);
    let ttfo = s.ttfo.unwrap();
    assert_eq!(ttfo.count, 1);
    assert_eq!(ttfo.max, 100);
    // 10 / 3 ns rounds down to 3 ns; 1.5e9 tokens/s is 1.5e12 thousandths.
    assert_eq!(s.inter_token.max, 3);
    assert_eq!(s.throughput.max, 1_500_000_000_000);
    assert_eq!(s.output_tokens.sum, 10);
}

#[test]
fn summary_without_content_omits_ttfo() {
    let records: Vec<RunRecord> = vec![Ok(result(5, None, 9, 1))];
    let s = summarize(&records, 0);
    assert!(s.ttfo.is_none());
    assert_eq!(s.request_throughput.num, 0);
    let empty = summarize(&vec![], 10);
    assert_eq!(empty.num_requests, 0);
    assert!(!empty.latency.has_data());
}

#[test]
fn errors_are_grouped_by_message() {
    let records: Vec<RunRecord> = vec![
        Err("b".to_string()),
        Ok(result(1, None, 2, 0)),
        Err("a".to_string()),
        Err("b".to_string()),
    ];
    let e = error_summary(&records);
    assert_eq!(e.messages, vec!["b".to_string(), "a".to_string()]);
    assert_eq!(e.counts, vec![2, 1]);
}

#[test]
fn slug_sanitizes_the_model_name() {
    assert_eq!(benchmark_slug("meta-llama/Llama-3.1-8B", 550, Some(150)), "meta-llama-Llama-3-1-8B_550_150");
    assert_eq!(benchmark_slug("a:b?c*d", 10, None), "abcd_10_none");
}

#[test]
fn run_id_pads_nanoseconds() {
    assert_eq!(run_id(1700000000, 42), "1700000000_000000042");
    assert_eq!(run_id(0, 999_999_999), "0_999999999");
}
