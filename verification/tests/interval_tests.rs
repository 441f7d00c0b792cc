use rperf3::interval_reporter::{
    line_layout, transfer_unit, IntervalCounter, IntervalTotals, LineLayout, TransferUnit,
};

#[test]
fn test_interval_counter_counts_and_resets() {
    let mut c = IntervalCounter::new();
    assert_eq!(c, IntervalCounter { bytes: 0, packets: 0 });
    c.record(1000);
    c.record(500);
    assert_eq!(c.bytes, 1500);
    assert_eq!(c.packets, 2);

    let t = c.close(3_000_000_000, 1_000_000_000);
    assert_eq!(
        t,
        IntervalTotals { start_nanos: 2_000_000_000, end_nanos: 3_000_000_000, bytes: 1500, packets: 2 }
    );
    assert_eq!(c, IntervalCounter { bytes: 0, packets: 0 });

    c.record(42);
    let t = c.close(4_000_000_000, 1_000_000_000);
    assert_eq!(t.bytes, 42);
    assert_eq!(t.packets, 1);
    assert_eq!(t.start_nanos, 3_000_000_000);
}

#[test]
fn test_interval_start_is_clamped_at_test_start() {
    let mut c = IntervalCounter::new();
    c.record(10);
    // The interval seems longer than the test so far: it starts at zero.
    let t = c.close(500, 800);
    assert_eq!(t.start_nanos, 0);
    assert_eq!(t.end_nanos, 500);
    let t = c.close(800, 800);
    assert_eq!(t.start_nanos, 0);
    assert_eq!(t.bytes, 0);
}

#[test]
fn test_interval_is_due() {
    assert!(IntervalCounter::is_due(1_000_000_000, 1_000_000_000));
    assert!(IntervalCounter::is_due(1_000_000_001, 1_000_000_000));
    assert!(!IntervalCounter::is_due(999_999_999, 1_000_000_000));
}

#[test]
fn test_reported_bytes_add_up() {
    let mut c = IntervalCounter::new();
    let mut reported = 0u64;
    for i in 0..100u64 {
        c.record(i);
        if i % 7 == 6 {
            reported += c.close(i, 1).bytes;
        }
    }
    assert_eq!(reported + c.bytes, (0..100u64).sum::<u64>());
}

#[test]
fn test_transfer_unit() {
    assert_eq!(transfer_unit(999_999), TransferUnit::KBytes);
    assert_eq!(transfer_unit(1_000_000), TransferUnit::MBytes);
    assert_eq!(transfer_unit(999_999_999), TransferUnit::MBytes);
    assert_eq!(transfer_unit(1_000_000_000), TransferUnit::GBytes);
    assert_eq!(transfer_unit(0), TransferUnit::KBytes);
    assert_eq!(TransferUnit::KBytes.divisor(), 1_000);
    assert_eq!(TransferUnit::MBytes.divisor(), 1_000_000);
    assert_eq!(TransferUnit::GBytes.divisor(), 1_000_000_000);
    assert_eq!(TransferUnit::KBytes.label(), "KBytes");
    assert_eq!(TransferUnit::MBytes.label(), "MBytes");
    assert_eq!(TransferUnit::GBytes.label(), "GBytes");
}

#[test]
fn test_line_layout() {
    assert_eq!(line_layout(Some(7), Some(1), Some(4096)), LineLayout::Udp { packets: 7 });
    assert_eq!(
        line_layout(None, Some(3), Some(65536)),
        LineLayout::TcpWithCwnd { retransmits: 3, cwnd_kbytes: 64 }
    );
    assert_eq!(
        line_layout(None, Some(3), Some(1023)),
        LineLayout::TcpWithCwnd { retransmits: 3, cwnd_kbytes: 0 }
    );
    assert_eq!(line_layout(None, Some(2), None), LineLayout::TcpWithRetransmits { retransmits: 2 });
    assert_eq!(line_layout(None, None, Some(64)), LineLayout::Basic);
    assert_eq!(line_layout(None, None, None), LineLayout::Basic);
}
