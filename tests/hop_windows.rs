use gping::hops::{classify, hop_latency, HopMap, HopWindow, LatencyTier};

#[test]
fn later_hop_faster_is_clamped_to_zero() {
    assert_eq!(hop_latency(Some(40_000), 25_000), 0);
}

#[test]
fn hop_latency_is_difference() {
    assert_eq!(hop_latency(Some(25_000), 40_000), 15_000);
    assert_eq!(hop_latency(None, 40_000), 40_000);
}

#[test]
fn eleven_second_old_entry_is_evicted_nine_is_kept() {
    let mut w = HopWindow::new();
    w.record(0, 50_000);
    w.record(2_000, 20_000);
    assert_eq!(w.window_max(11_000), 20_000);
    assert_eq!(w.window_max(11_000), 20_000);
}

#[test]
fn entry_goes_once_older_than_ten_seconds() {
    let mut w = HopWindow::new();
    w.record(1_000, 70_000);
    assert_eq!(w.window_max(11_000), 70_000);
    assert_eq!(w.window_max(11_001), 0);
}

#[test]
fn entry_ten_and_a_half_seconds_old_is_evicted() {
    let mut w = HopWindow::new();
    w.record(0, 70_000);
    assert_eq!(w.window_max(10_500), 0);
}

#[test]
fn empty_window_max_is_zero() {
    let mut w = HopWindow::new();
    assert_eq!(w.window_max(5), 0);
    assert!(w.accepts(0));
}

#[test]
fn out_of_order_arrival_is_refused() {
    let mut w = HopWindow::new();
    w.record(10, 1);
    assert!(!w.accepts(9));
    assert!(w.accepts(10));
}

#[test]
fn hop_map_latencies() {
    let mut m = HopMap::new(3);
    m.record(0, 100, 40_000);
    m.record(1, 100, 25_000);
    m.record(2, 100, 90_000);
    m.record(0, 200, 10_000);
    assert_eq!(m.latencies(300), vec![40_000, 0, 65_000]);
    assert_eq!(m.latencies(12_000), vec![0, 0, 0]);
}

#[test]
fn tiers() {
    assert_eq!(classify(30_000), LatencyTier::Good);
    assert_eq!(classify(30_001), LatencyTier::Fair);
    assert_eq!(classify(60_000), LatencyTier::Fair);
    assert_eq!(classify(90_000), LatencyTier::Poor);
    assert_eq!(classify(90_001), LatencyTier::Bad);
}
