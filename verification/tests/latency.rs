use geyser_rs::latency::adjusted_latency;
use geyser_rs::latency::LatencyMonitor;
use geyser_rs::latency::LatencyWindow;
use geyser_rs::latency::LATENCY_OFFSET_MS;
use geyser_rs::latency::MAX_LATENCIES;
use geyser_rs::latency::MONITOR_INTERVAL_MS;
use geyser_rs::ledger::PendingTransaction;
use geyser_rs::ledger::TransactionsBySlot;

fn pending(signature: &str, received_at_ms: i64) -> PendingTransaction {
    PendingTransaction { signature: signature.to_string(), received_at_ms }
}

#[test]
fn constants() {
    assert_eq!(LATENCY_OFFSET_MS, 500);
    assert_eq!(MAX_LATENCIES, 420);
    assert_eq!(MONITOR_INTERVAL_MS, 420);
}

#[test]
fn latency_is_receipt_minus_block_time_minus_offset() {
    assert_eq!(adjusted_latency(100_700, 100), 200);
    assert_eq!(adjusted_latency(1_001_200, 1000), 700);
    assert_eq!(adjusted_latency(1_000_500, 1000), 0);
    assert_eq!(adjusted_latency(1_000_000, 1000), -500);
    assert_eq!(adjusted_latency(0, 0), -500);
    assert_eq!(adjusted_latency(999_000, 1000), -1500);
}

#[test]
fn latency_saturates_at_the_ends_of_the_range() {
    assert_eq!(adjusted_latency(i64::MIN, 0), i64::MIN);
    assert_eq!(adjusted_latency(i64::MIN + 100, 0), i64::MIN);
    assert_eq!(adjusted_latency(i64::MIN + 500, 0), i64::MIN);
    assert_eq!(adjusted_latency(i64::MIN + 501, 0), i64::MIN + 1);
    assert_eq!(adjusted_latency(i64::MAX, 0), i64::MAX - 500);
    assert_eq!(adjusted_latency(i64::MAX, -1), i64::MAX - 500);
    assert_eq!(adjusted_latency(0, i64::MAX), i64::MIN);
    assert_eq!(adjusted_latency(0, i64::MIN), i64::MAX - 500);
}

#[test]
fn window_keeps_the_latest_420_samples_in_order() {
    let mut window = LatencyWindow::new();
    for sample in 1..=421i64 {
        window.push(sample);
    }
    assert_eq!(window.len(), 420);
    for index in 0..420usize {
        assert_eq!(window.get(index), Some(index as i64 + 2));
    }
    assert_eq!(window.get(420), None);
    assert_eq!(window.sum(), (2..=421i128).sum::<i128>());
}

#[test]
fn window_below_capacity_keeps_everything() {
    let mut window = LatencyWindow::new();
    assert_eq!(window.len(), 0);
    assert_eq!(window.sum(), 0);
    assert_eq!(window.get(0), None);
    for sample in 0..420i64 {
        window.push(sample - 10);
    }
    assert_eq!(window.len(), 420);
    assert_eq!(window.get(0), Some(-10));
    assert_eq!(window.get(419), Some(409));
}

#[test]
fn window_sum_does_not_overflow() {
    let mut window = LatencyWindow::new();
    for _ in 0..420 {
        window.push(i64::MAX);
    }
    assert_eq!(window.sum(), 420 * i64::MAX as i128);
    let mut window = LatencyWindow::new();
    for _ in 0..420 {
        window.push(i64::MIN);
    }
    assert_eq!(window.sum(), 420 * i64::MIN as i128);
}

#[test]
fn correlate_gives_one_record_per_transaction() {
    let mut monitor = LatencyMonitor::new();
    let transactions = vec![pending("first", 947_638_923_704), pending("second", 947_638_924_004)];
    let records = monitor.correlate(77, 947_638_923, &transactions);
    assert_eq!(records.len(), 2);
    assert_eq!(records[0].slot, 77);
    assert_eq!(records[0].signature, "first");
    assert_eq!(records[0].block_time_secs, 947_638_923);
    assert_eq!(records[0].received_at_ms, 947_638_923_704);
    assert_eq!(records[0].latency_ms, 204);
    assert_eq!(records[0].samples, 1);
    assert_eq!(records[0].samples_total, 204);
    assert_eq!(records[1].signature, "second");
    assert_eq!(records[1].latency_ms, 504);
    assert_eq!(records[1].samples, 2);
    assert_eq!(records[1].samples_total, 708);
    assert_eq!(monitor.samples(), 2);
}

#[test]
fn records_carry_times_as_rfc3339_text() {
    let mut monitor = LatencyMonitor::new();
    let records = monitor.correlate(1, 947_638_923, &vec![pending("s", 947_638_923_004)]);
    assert_eq!(records[0].block_time.as_deref(), Some("2000-01-12T01:02:03.000Z"));
    assert_eq!(records[0].received_at.as_deref(), Some("2000-01-12T01:02:03.004Z"));
    let records = monitor.correlate(1, 0, &vec![pending("s", -1)]);
    assert_eq!(records[0].block_time.as_deref(), Some("1970-01-01T00:00:00.000Z"));
    assert_eq!(records[0].received_at.as_deref(), Some("1969-12-31T23:59:59.999Z"));
}

#[test]
fn times_that_cannot_be_represented_have_no_text() {
    let mut monitor = LatencyMonitor::new();
    let records = monitor.correlate(1, i64::MAX, &vec![pending("s", i64::MAX)]);
    assert_eq!(records.len(), 1);
    assert_eq!(records[0].block_time, None);
    assert_eq!(records[0].received_at, None);
    assert_eq!(records[0].latency_ms, i64::MIN);
}

#[test]
fn correlate_without_transactions_changes_nothing() {
    let mut monitor = LatencyMonitor::new();
    let records = monitor.correlate(1, 100, &Vec::new());
    assert!(records.is_empty());
    assert_eq!(monitor.samples(), 0);
}

#[test]
fn cycle_removes_resolved_slots_and_keeps_the_others() {
    let mut ledger = TransactionsBySlot::new();
    ledger.record(10, pending("a", 100_700));
    ledger.record(11, pending("b", 200_900));
    ledger.record(10, pending("c", 100_800));
    ledger.record(12, pending("d", 300_000));
    let mut monitor = LatencyMonitor::new();
    let resolved = vec![(10, Some(100)), (11, None), (12, Some(299)), (13, Some(1))];
    let records = monitor.process_resolved(&mut ledger, &resolved);
    assert_eq!(ledger.slots(), vec![11]);
    let seen: Vec<(u64, String, i64, usize, i128)> = records
        .iter()
        .map(|r| (r.slot, r.signature.clone(), r.latency_ms, r.samples, r.samples_total))
        .collect();
    assert_eq!(
        seen,
        vec![
            (10, "a".to_string(), 200, 1, 200),
            (10, "c".to_string(), 300, 2, 500),
            (12, "d".to_string(), 500, 3, 1000),
        ]
    );
    assert_eq!(monitor.samples(), 3);
    let again = monitor.process_resolved(&mut ledger, &vec![(10, Some(100))]);
    assert!(again.is_empty());
    assert_eq!(monitor.samples(), 3);
}

#[test]
fn monitor_window_is_bounded_across_cycles() {
    let mut monitor = LatencyMonitor::new();
    let transactions: Vec<PendingTransaction> =
        (0..500).map(|i| pending("s", 1_000 + i)).collect();
    let records = monitor.correlate(1, 0, &transactions);
    assert_eq!(records.len(), 500);
    assert_eq!(monitor.samples(), 420);
    assert_eq!(records[419].samples, 420);
    assert_eq!(records[499].samples, 420);
    // The window holds the samples of transactions 80..500: 580 ..= 999.
    assert_eq!(records[499].samples_total, (580..=999i128).sum::<i128>());
}
