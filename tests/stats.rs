use llmnop::stats::{describe, percentile, sort_values};

#[test]
fn test_percentile_calculation() {
    let values = vec![1, 2, 3, 4, 5];

    assert_eq!(percentile(&values, 0), 1);
    assert_eq!(percentile(&values, 25), 2);
    assert_eq!(percentile(&values, 50), 3);
    assert_eq!(percentile(&values, 75), 4);
    assert_eq!(percentile(&values, 100), 5);

    assert_eq!(percentile(&vec![], 50), 0);
    assert_eq!(percentile(&vec![42], 50), 42);
}

#[test]
fn test_stats_computation() {
    let values = vec![1, 2, 3, 4, 5];
    let stats = describe(&values);

    assert_eq!(stats.sum as f64 / stats.count as f64, 3.0);
    assert_eq!(stats.min, 1);
    assert_eq!(stats.max, 5);
    let v = stats.variance.unwrap();
    assert!(v.num > 0);
    // Sample variance of 1..=5 is 2.5.
    assert_eq!(v.num as f64 / v.den as f64, 2.5);

    assert!(stats.min <= stats.quantiles.p25);
    assert!(stats.quantiles.p25 <= stats.quantiles.p50);
    assert!(stats.quantiles.p75 <= stats.max);

    let empty_stats = describe(&vec![]);
    assert_eq!(empty_stats.min, 0);
    assert_eq!(empty_stats.max, 0);
    assert_eq!(empty_stats.sum, 0);
    assert!(!empty_stats.has_data());
}

#[test]
fn quantiles_are_ordered() {
    let values: Vec<u64> = (0..200).map(|i| (i * 7919) % 1000).collect();
    let s = describe(&values);
    let q = s.quantiles;
    let chain = [s.min, q.p1, q.p5, q.p10, q.p25, q.p50, q.p75, q.p90, q.p95, q.p99, s.max];
    assert!(chain.windows(2).all(|w| w[0] <= w[1]));
    assert_eq!(s.count, 200);
}

#[test]
fn quantile_indices_use_the_floor() {
    let values: Vec<u64> = (1..=11).rev().collect();
    assert_eq!(sort_values(&values), (1..=11).collect::<Vec<u64>>());
    let s = describe(&values);
    // Index floor(10 * p): 0, 0, 1, 2, 5, 7, 9, 9, 9.
    let q = s.quantiles;
    assert_eq!([q.p1, q.p5, q.p10, q.p25, q.p50, q.p75, q.p90, q.p95, q.p99], [1, 1, 2, 3, 6, 8, 10, 10, 10]);
    let one = describe(&vec![9]);
    assert_eq!(one.variance.unwrap().num, 0);
    assert_eq!(one.quantiles.p99, 9);
}
