//! Latency statistics, pinning state, and the order arena.

use tradecore::{CpuPinning, OrderArena, PerformanceStats};

#[test]
fn test_performance_stats() {
    let mut stats = PerformanceStats::default();
    stats.record_signal_latency(500);
    stats.record_signal_latency(700);
    stats.record_signal_latency(600);

    assert_eq!(stats.avg_signal_latency_ns, 600);
    assert_eq!(stats.samples, 3);
    assert_eq!(stats.peak_latency_ns, 700);
}

#[test]
fn test_cpu_pinning_creation() {
    let pinning = CpuPinning::new(vec![0, 1, 2, 3]);
    assert!(!pinning.is_enabled());
}

#[test]
fn test_cpu_pinning_out_of_range() {
    let mut pinning = CpuPinning::new(vec![0, 1]);
    assert_eq!(
        pinning.pin_current_thread(5),
        Err(tradecore::PinningError::CoreOutOfRange)
    );
    assert!(!pinning.is_enabled());
}

#[test]
fn test_order_arena_creation() {
    let arena = OrderArena::new(1000);
    assert_eq!(arena.capacity(), 1000);
}

#[test]
fn test_meets_targets() {
    let mut stats = PerformanceStats::default();
    assert!(stats.meets_targets());
    stats.record_signal_latency(2_000);
    assert!(!stats.meets_targets());
}
