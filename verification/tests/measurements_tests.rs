use rperf3::measurements::{
    tcp_stats_from_info, CompletionCounts, TcpInfoFields, UdpEndCounts,
    assemble_start_info, build_start_info, protocol_is_udp, to_lower_hex, ConnectionInfo,
    Measurements, MeasurementsCollector, StreamStats, SystemInfo, TcpStats, TestConfig,
};
use std::time::Duration;

#[test]
fn test_measurements() {
    let mut collector = MeasurementsCollector::new();

    collector.record_bytes_sent(0, 1000);
    collector.record_bytes_sent(0, 2000);
    collector.record_bytes_received(0, 500);

    collector.set_duration(Duration::from_secs(1));

    let measurements = collector.get();

    assert_eq!(measurements.total_bytes_sent, 3000);
    assert_eq!(measurements.total_bytes_received, 500);
    assert_eq!(measurements.total_duration, Duration::from_secs(1));

    // Should calculate bits per second correctly
    let bps = (measurements.total_bytes_sent as f64 * 8.0)
        / measurements.total_duration.as_secs_f64();
    assert_eq!(bps, 24000.0); // 3000 bytes * 8 bits / 1 second
}

#[test]
fn test_udp_packet_loss_tracking() {
    let mut collector = MeasurementsCollector::new();

    // Simulate sending packets with sequence numbers: 0, 1, 2, 3, 4, 5
    // Receive packets: 0, 1, 3, 5 (missing 2 and 4)
    let base_time = 1000000u64; // 1 second in microseconds

    collector.record_udp_packet_received(0, base_time, base_time + 100);
    collector.record_udp_packet_received(1, base_time + 1000, base_time + 1100);
    collector.record_udp_packet_received(3, base_time + 3000, base_time + 3100); // Skip 2
    collector.record_udp_packet_received(5, base_time + 5000, base_time + 5100); // Skip 4

    let (lost, expected) = collector.calculate_udp_loss();

    // Expected 6 packets (0-5), received 4, lost 2
    assert_eq!(expected, 6, "Expected 6 packets (sequence 0-5)");
    assert_eq!(lost, 2, "Should have lost 2 packets");

    let measurements = collector.get();
    assert_eq!(measurements.out_of_order_packets, 0, "No out-of-order packets");
}

#[test]
fn test_udp_out_of_order_detection() {
    let mut collector = MeasurementsCollector::new();

    let base_time = 1000000u64;

    // Receive packets out of order: 0, 2, 1, 3
    collector.record_udp_packet_received(0, base_time, base_time + 100);
    collector.record_udp_packet_received(2, base_time + 2000, base_time + 2100);
    collector.record_udp_packet_received(1, base_time + 1000, base_time + 3100); // Out of order
    collector.record_udp_packet_received(3, base_time + 3000, base_time + 3200);

    let measurements = collector.get();
    assert_eq!(measurements.out_of_order_packets, 1, "Should detect 1 out-of-order packet");
}

#[test]
fn test_measurements_collector_isolation() {
    let mut collector1 = MeasurementsCollector::new();
    let mut collector2 = MeasurementsCollector::new();

    collector1.record_bytes_sent(0, 1000);
    collector2.record_bytes_sent(0, 2000);

    let m1 = collector1.get();
    let m2 = collector2.get();

    assert_eq!(m1.total_bytes_sent, 1000);
    assert_eq!(m2.total_bytes_sent, 2000);
}

#[test]
fn test_multiple_stream_isolation() {
    let mut collector = MeasurementsCollector::new();

    // Simulate multiple streams
    for stream_id in 0..4 {
        collector.record_bytes_sent(stream_id, (stream_id as u64 + 1) * 1000);
    }

    let m = collector.get();
    assert_eq!(m.streams.len(), 4);
    assert_eq!(m.total_bytes_sent, 10_000); // 1000 + 2000 + 3000 + 4000
}

#[test]
fn test_stream_statistics_aggregation() {
    let mut collector = MeasurementsCollector::new();

    // Simulate data transfer on multiple streams
    collector.record_bytes_sent(0, 1_000_000);
    collector.record_bytes_sent(1, 2_000_000);
    collector.record_bytes_received(0, 500_000);
    collector.record_bytes_received(1, 1_500_000);

    let m = collector.get();
    assert_eq!(m.total_bytes_sent, 3_000_000);
    assert_eq!(m.total_bytes_received, 2_000_000);
}

#[test]
fn test_udp_packet_loss_calculation_mock() {
    let mut collector = MeasurementsCollector::new();

    // Simulate receiving packets: 0, 1, 3, 4 (missing 2)
    let sequences = vec![0, 1, 3, 4];
    let base_time = 1_000_000u64;

    for seq in sequences {
        collector.record_udp_packet_received(
            seq,
            base_time + seq * 1000,
            base_time + seq * 1000 + 100,
        );
    }

    let (lost, expected) = collector.calculate_udp_loss();
    assert_eq!(expected, 5); // max_seq (4) + 1
    assert_eq!(lost, 1); // 5 expected - 4 received
}

#[test]
fn test_udp_out_of_order_detection_mock() {
    let mut collector = MeasurementsCollector::new();

    // Receive in order: 0, 2, 1 (1 is out of order), 4, 3 (3 is out of order)
    let sequences = vec![0, 2, 1, 4, 3];
    let base_time = 1_000_000u64;

    for seq in sequences {
        collector.record_udp_packet_received(
            seq,
            base_time + seq * 1000,
            base_time + seq * 1000 + 100,
        );
    }

    let m = collector.get();
    assert_eq!(m.out_of_order_packets, 2); // packets 1 and 3
}

#[test]
fn test_large_data_transfer_mock() {
    let mut collector = MeasurementsCollector::new();

    // Simulate transferring 10 GB
    for _ in 0..10_000 {
        collector.record_bytes_sent(0, 1_000_000); // 1 MB at a time
    }

    let m = collector.get();
    assert_eq!(m.total_bytes_sent, 10_000_000_000); // 10 GB
}

#[test]
fn test_single_byte_transfers_mock() {
    let mut collector = MeasurementsCollector::new();

    // Simulate very small transfers
    for _ in 0..1000 {
        collector.record_bytes_sent(0, 1);
    }

    let m = collector.get();
    assert_eq!(m.total_bytes_sent, 1000);
}

#[test]
fn test_transit_delta_values() {
    let mut collector = MeasurementsCollector::new();
    assert_eq!(collector.record_udp_packet_received(0, 1_000, 1_100), None);
    // transit 150 against 100
    assert_eq!(collector.record_udp_packet_received(1, 2_000, 2_150), Some(50));
    // transit 80 against 150
    assert_eq!(collector.record_udp_packet_received(2, 3_000, 3_080), Some(70));
    // receive before send: transit clamps to 0
    assert_eq!(collector.record_udp_packet_received(3, 5_000, 4_000), Some(80));
}

#[test]
fn test_initialization_packet_ignored() {
    let mut collector = MeasurementsCollector::new();
    assert_eq!(collector.record_udp_packet_received(u64::MAX, 1, 2), None);
    assert_eq!(collector.calculate_udp_loss(), (0, 0));
    collector.record_udp_packet_received(2, 10, 20);
    collector.record_udp_packet_received(2, 11, 21);
    collector.record_udp_packet_received(1, 12, 22);
    // duplicate of 2 received: 3 received against 3 expected
    assert_eq!(collector.calculate_udp_loss(), (0, 3));
}

#[test]
fn test_get_uses_loss_only_when_receiving() {
    let mut collector = MeasurementsCollector::new();
    collector.record_udp_packet(0);
    collector.record_udp_packet(0);
    collector.record_udp_loss(4);
    let m = collector.get();
    assert_eq!(m.total_packets, 2);
    assert_eq!(m.lost_packets, 4);

    collector.record_udp_packet_received(3, 0, 0);
    collector.record_bytes_received(0, 100);
    let m = collector.get();
    assert_eq!(m.total_packets, 4);
    assert_eq!(m.lost_packets, 3);
}

#[test]
fn test_stream_stats_lookup_and_durations() {
    let mut collector = MeasurementsCollector::new();
    collector.record_bytes_sent(7, 10);
    collector.record_bytes_received(9, 20);
    collector.record_bytes_sent(7, 5);
    let s = collector.get_stream_stats(7).unwrap();
    assert_eq!((s.bytes_sent, s.bytes_received), (15, 0));
    assert!(collector.get_stream_stats(8).is_none());
    collector.set_duration(Duration::from_secs(3));
    let m = collector.get();
    assert!(m.streams.iter().all(|s| s.duration == Duration::from_secs(3)));
    assert_eq!(m.streams.len(), 2);
    assert_eq!(m.streams[1].stream_id, 9);
}

#[test]
fn test_measurements_add_stream() {
    let mut m = Measurements::new();
    let mut s = StreamStats::new(2);
    s.bytes_sent = 40;
    s.bytes_received = 2;
    m.add_stream(s);
    m.add_stream(StreamStats::new(3));
    assert_eq!(m.total_bytes_sent, 40);
    assert_eq!(m.total_bytes_received, 2);
    assert_eq!(m.streams.len(), 2);
    m.set_duration(Duration::from_millis(1500));
    assert_eq!(m.streams[0].duration, Duration::from_millis(1500));
    assert_eq!(m.total_duration, Duration::from_millis(1500));
    assert_eq!(StreamStats::new(1).duration, Duration::ZERO);
    assert_eq!(m.calculate_udp_loss(), (0, 0));
}

#[test]
fn test_tcp_stats_default() {
    let t = TcpStats::default();
    assert_eq!(t.retransmits, 0);
    assert!(t.snd_cwnd.is_none() && t.rtt.is_none() && t.rttvar.is_none() && t.pmtu.is_none());
}

#[test]
fn test_lower_hex_cookie() {
    assert_eq!(to_lower_hex(0), "0");
    assert_eq!(to_lower_hex(255), "ff");
    assert_eq!(to_lower_hex(0x1234_abcd), "1234abcd");
    assert_eq!(to_lower_hex(u128::MAX), "f".repeat(32));
}

#[test]
fn test_protocol_is_udp() {
    assert!(protocol_is_udp("UDP"));
    assert!(protocol_is_udp("Udp"));
    assert!(protocol_is_udp("udp"));
    assert!(!protocol_is_udp("Tcp"));
    assert!(!protocol_is_udp("udp "));
}

fn test_config(protocol: &str) -> TestConfig {
    TestConfig {
        protocol: protocol.to_string(),
        num_streams: 1,
        blksize: 1500,
        omit: 0,
        duration: 10,
        reverse: false,
    }
}

#[test]
fn test_start_info_udp() {
    let conn = ConnectionInfo {
        socket_fd: Some(3),
        local_host: "127.0.0.1".to_string(),
        local_port: 40000,
        remote_host: "10.0.0.2".to_string(),
        remote_port: 5202,
    };
    let sys = SystemInfo {
        version: "v".to_string(),
        system_info: "linux x86_64 host".to_string(),
        timestamp: 17,
        timestamp_str: "then".to_string(),
    };
    let r = assemble_start_info(
        Some(conn),
        Some(sys),
        test_config("Udp"),
        "rperf3 0.1.0".to_string(),
        "linux x86_64".to_string(),
        0xbeef,
        "now".to_string(),
        99,
    );
    assert_eq!(r.connected.len(), 1);
    assert_eq!(r.connecting_to.host, "10.0.0.2");
    assert_eq!(r.connecting_to.port, 5202);
    assert_eq!(r.system_info, "linux x86_64 host");
    assert_eq!(r.timestamp.time, "then");
    assert_eq!(r.timestamp.timesecs, 17);
    assert_eq!(r.cookie, "beef");
    assert_eq!(r.tcp_mss_default, None);
    assert_eq!((r.sndbuf_actual, r.rcvbuf_actual), (212992, 212992));
}

#[test]
fn test_start_info_tcp_defaults() {
    let r = assemble_start_info(
        None,
        None,
        test_config("Tcp"),
        "rperf3 0.1.0".to_string(),
        "linux x86_64".to_string(),
        1,
        "now".to_string(),
        99,
    );
    assert!(r.connected.is_empty());
    assert_eq!(r.connecting_to.host, "");
    assert_eq!(r.connecting_to.port, 5201);
    assert_eq!(r.system_info, "linux x86_64");
    assert_eq!(r.timestamp.time, "now");
    assert_eq!(r.timestamp.timesecs, 99);
    assert_eq!(r.tcp_mss_default, Some(1448));
    assert_eq!((r.sndbuf_actual, r.rcvbuf_actual), (16384, 131072));
    assert_eq!(r.sock_bufsize, 0);
}

#[test]
fn test_build_start_info_cookie_and_time() {
    let r = build_start_info(
        None,
        None,
        test_config("TCP"),
        "rperf3".to_string(),
        "os arch".to_string(),
    );
    assert!(!r.cookie.is_empty());
    assert!(r.cookie.chars().all(|c| c.is_ascii_hexdigit() && !c.is_ascii_uppercase()));
    // 2020-01-01 as a UNIX timestamp
    assert!(r.timestamp.timesecs > 1_577_836_800);
    assert!(r.timestamp.time.ends_with("+0000"));
}

#[test]
fn test_tcp_stats_from_info() {
    let info = TcpInfoFields { total_retrans: 3, snd_mss: 1448, snd_cwnd: 10, rtt: 250, rttvar: 40, pmtu: 1500 };
    let s = tcp_stats_from_info(Some(info));
    assert_eq!(s.retransmits, 3);
    assert_eq!(s.snd_cwnd, Some(14480));
    assert_eq!(s.rtt, Some(250));
    assert_eq!(s.rttvar, Some(40));
    assert_eq!(s.pmtu, Some(1500));
    let d = tcp_stats_from_info(None);
    assert_eq!(d.retransmits, 0);
    assert_eq!((d.snd_cwnd, d.rtt, d.rttvar, d.pmtu), (None, None, None, None));
}

#[test]
fn test_udp_end_counts() {
    let mut collector = MeasurementsCollector::new();
    collector.record_bytes_sent(0, 100);
    collector.record_bytes_received(0, 300);
    for seq in [0u64, 1, 3, 2, 6] {
        collector.record_udp_packet_received(seq, 1000, 2000);
    }
    // The byte totals count only once they are synced.
    assert_eq!(collector.synced_totals(), (0, 0));
    let before = collector.udp_end_counts();
    assert_eq!(before.bytes, 0);
    assert!(!before.sender);

    collector.sync_atomic_counters();
    assert_eq!(collector.synced_totals(), (100, 300));
    let c = collector.udp_end_counts();
    assert_eq!(
        c,
        UdpEndCounts { bytes: 400, lost_packets: 2, packets: 7, out_of_order: Some(1), sender: false }
    );
}

#[test]
fn test_completion_counts() {
    let mut m = Measurements::new();
    m.total_bytes_sent = 10;
    m.total_bytes_received = 5;
    assert_eq!(
        m.completion_counts(),
        CompletionCounts { total_bytes: 15, total_packets: None, lost_packets: None, out_of_order: None }
    );
    m.total_packets = 100;
    m.lost_packets = 3;
    m.out_of_order_packets = 2;
    assert_eq!(
        m.completion_counts(),
        CompletionCounts {
            total_bytes: 15,
            total_packets: Some(100),
            lost_packets: Some(3),
            out_of_order: Some(2)
        }
    );
}

#[test]
fn test_new_durations_are_zero() {
    assert_eq!(Measurements::new().total_duration, Duration::ZERO);
    assert_eq!(StreamStats::new(3).duration, Duration::ZERO);
}

/// RFC 3550 jitter in milliseconds from the transit-time differences the
/// collector hands out: J += (|D| - J) / 16, kept in microseconds.
fn jitter_ms(deltas: &[Option<u64>]) -> f64 {
    let mut j = 0.0f64;
    for d in deltas.iter().flatten() {
        j += (*d as f64 - j) / 16.0;
    }
    j / 1000.0
}

#[test]
fn test_udp_jitter_calculation() {
    let mut collector = MeasurementsCollector::new();

    let base_time = 1000000u64;

    // Send packets at regular intervals with varying receive times
    let deltas = vec![
        collector.record_udp_packet_received(0, base_time, base_time + 100),
        collector.record_udp_packet_received(1, base_time + 10000, base_time + 10150),
        collector.record_udp_packet_received(2, base_time + 20000, base_time + 20080),
        collector.record_udp_packet_received(3, base_time + 30000, base_time + 30120),
    ];

    // Jitter should be calculated but we just check it's been set
    assert!(jitter_ms(&deltas) >= 0.0, "Jitter should be non-negative");
}

#[test]
fn test_udp_jitter_calculation_mock() {
    let mut collector = MeasurementsCollector::new();

    // Simulate packets with consistent timing
    let base_send = 1_000_000u64;
    let base_recv = 1_000_100u64;

    let deltas = vec![
        collector.record_udp_packet_received(0, base_send, base_recv),
        collector.record_udp_packet_received(1, base_send + 1000, base_recv + 1000),
        collector.record_udp_packet_received(2, base_send + 2000, base_recv + 2000),
    ];

    // With consistent timing, jitter should be minimal
    assert!(jitter_ms(&deltas) < 0.1); // Less than 0.1ms jitter
}

#[test]
fn test_transit_deltas_exact() {
    let mut collector = MeasurementsCollector::new();
    let base = 1_000_000u64;
    // The first packet has nothing to compare with.
    assert_eq!(collector.record_udp_packet_received(0, base, base + 100), None);
    assert_eq!(collector.record_udp_packet_received(1, base + 10000, base + 10150), Some(50));
    assert_eq!(collector.record_udp_packet_received(2, base + 20000, base + 20080), Some(70));
    assert_eq!(collector.record_udp_packet_received(3, base + 30000, base + 30120), Some(40));
    // Initialization packets are ignored altogether.
    assert_eq!(collector.record_udp_packet_received(u64::MAX, base, base + 999_999), None);
    assert_eq!(collector.udp_received_count(), 4);
    // A receive clock behind the send clock counts as zero transit time.
    assert_eq!(collector.record_udp_packet_received(4, base + 40000, base), Some(120));
}

#[test]
fn test_tcp_cwnd_in_bytes_does_not_overflow() {
    let info = TcpInfoFields {
        total_retrans: 0,
        snd_mss: u32::MAX,
        snd_cwnd: u32::MAX,
        rtt: 0,
        rttvar: 0,
        pmtu: 0,
    };
    assert_eq!(tcp_stats_from_info(Some(info)).snd_cwnd, Some(u32::MAX as u64 * u32::MAX as u64));
}

#[test]
fn test_udp_end_counts_of_a_sender() {
    let mut collector = MeasurementsCollector::new();
    for _ in 0..3 {
        collector.record_bytes_sent(0, 1000);
        collector.record_udp_packet(0);
    }
    collector.sync_atomic_counters();
    assert_eq!(
        collector.udp_end_counts(),
        UdpEndCounts { bytes: 3000, lost_packets: 0, packets: 3, out_of_order: None, sender: true }
    );
}
