use llmnop::pump::{Pump, RunRecord};

fn failure(i: u32) -> RunRecord {
    Err(format!("request {} failed", i))
}

/// Runs a pump over simulated requests that each take `latency` time units,
/// with a deadline at `deadline`; returns the pump, the most requests seen in
/// flight at once and the number completed when the deadline fired.
fn simulate(total: u32, concurrency: u32, latency: u64, deadline: u64) -> (Pump, usize, usize) {
    let mut pump = Pump::new(total, concurrency);
    let mut running: Vec<(u64, u32)> = pump.top_up().into_iter().map(|i| (latency, i)).collect();
    let mut peak = pump.in_flight.len();
    let mut now = 0;
    let mut tripped = false;
    let mut by_deadline = 0;
    while !pump.is_done() {
        running.sort();
        let (finish, index) = running[0];
        if !tripped && deadline <= finish {
            now = deadline;
            pump.trip_deadline();
            tripped = true;
            by_deadline = pump.records.len();
            continue;
        }
        running.remove(0);
        now = finish;
        let started = pump.complete(index, failure(index));
        running.extend(started.into_iter().map(|i| (now + latency, i)));
        peak = peak.max(pump.in_flight.len());
    }
    let _ = now;
    if !tripped {
        by_deadline = pump.records.len();
    }
    (pump, peak, by_deadline)
}

#[test]
fn deadline_stops_admission_but_lets_requests_drain() {
    let (pump, peak, by_deadline) = simulate(5, 2, 100, 250);
    assert!(peak <= 2);
    assert!((2..=4).contains(&by_deadline), "{} requests completed", by_deadline);
    // The request in flight at the deadline still finishes and is recorded.
    assert_eq!(pump.records.len(), 5);
    assert_eq!(pump.finished.len(), pump.next_index as usize);
    assert!(pump.deadline_tripped);
}

#[test]
fn without_deadline_every_request_completes_once() {
    let (pump, peak, _) = simulate(7, 3, 10, u64::MAX);
    assert!(peak <= 3);
    assert_eq!(pump.records.len(), 7);
    let mut seen = pump.finished.clone();
    seen.sort();
    assert_eq!(seen, (0..7).collect::<Vec<u32>>());
}

#[test]
fn top_up_dispatches_in_index_order() {
    let mut pump = Pump::new(3, 5);
    assert_eq!(pump.top_up(), vec![0, 1, 2]);
    assert_eq!(pump.top_up(), Vec::<u32>::new());
    assert_eq!(pump.complete(1, failure(1)), Vec::<u32>::new());
    assert!(!pump.is_done());
    pump.complete(0, failure(0));
    pump.complete(2, failure(2));
    assert!(pump.is_done());
    assert_eq!(pump.finished, vec![1, 0, 2]);
    assert_eq!(pump.dispatch_order(), vec![1, 0, 2]);
    let (pump, _, _) = simulate(6, 2, 10, u64::MAX);
    let order = pump.dispatch_order();
    for (index, pos) in order.iter().enumerate() {
        assert_eq!(pump.finished[*pos], index as u32);
        assert_eq!(pump.records[*pos], failure(index as u32));
    }
}
