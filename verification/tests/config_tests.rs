use rperf3::config::{client_config_error, command_line_buffer_size, Config, Mode, Protocol};
use rperf3::control::{receive_timeout_nanos, client_step, server_plan, ClientAction, ClientState, ControlEvent, ServerPlan};
use rperf3::protocol::{frame_length, frame_message};
use rperf3::test_manager::{default_parallel, TestConfiguration};
use std::time::Duration;

#[test]
fn test_config_builder() {
    let config = Config::client("192.168.1.100".to_string(), 5201)
        .with_protocol(Protocol::Udp)
        .with_duration(Duration::from_secs(30))
        .with_bandwidth(100_000_000)
        .with_buffer_size(1024)
        .with_parallel(4)
        .with_reverse(true)
        .with_json(true);

    assert_eq!(config.port, 5201);
    assert_eq!(config.protocol, Protocol::Udp);
    assert_eq!(config.duration, Duration::from_secs(30));
    assert_eq!(config.bandwidth, Some(100_000_000));
    assert_eq!(config.buffer_size, 1024);
    assert_eq!(config.parallel, 4);
    assert!(config.reverse);
    assert!(config.json);
}

#[test]
fn test_client_config_basic() {
    let config = Config::client("127.0.0.1".to_string(), 5201);

    assert_eq!(config.server_addr, Some("127.0.0.1".to_string()));
    assert_eq!(config.port, 5201);
    assert_eq!(config.protocol, Protocol::Tcp);
    assert_eq!(config.duration, Duration::from_secs(10));
}

#[test]
fn test_server_config_basic() {
    let config = Config::server(5201);

    assert_eq!(config.port, 5201);
}

#[test]
fn test_client_config_chaining() {
    let config = Config::client("192.168.1.100".to_string(), 8080)
        .with_protocol(Protocol::Udp)
        .with_duration(Duration::from_secs(60))
        .with_parallel(4)
        .with_reverse(true)
        .with_bandwidth(1_000_000)
        .with_buffer_size(65536);

    assert_eq!(config.server_addr, Some("192.168.1.100".to_string()));
    assert_eq!(config.port, 8080);
    assert_eq!(config.protocol, Protocol::Udp);
    assert_eq!(config.duration, Duration::from_secs(60));
    assert_eq!(config.parallel, 4);
    assert!(config.reverse);
    assert_eq!(config.buffer_size, 65536);
}

#[test]
fn test_config_validation() {
    // Test minimum values
    let config = Config::client("127.0.0.1".to_string(), 5201)
        .with_parallel(1)
        .with_duration(Duration::from_secs(1))
        .with_buffer_size(1);

    assert_eq!(config.parallel, 1);
    assert_eq!(config.duration, Duration::from_secs(1));
    assert_eq!(config.buffer_size, 1);

    // Test with very large buffer
    let config = Config::client("127.0.0.1".to_string(), 5201).with_buffer_size(1_048_576); // 1 MB

    assert_eq!(config.buffer_size, 1_048_576);
}

#[test]
fn test_config_defaults() {
    let c = Config::default();
    assert_eq!(c.mode, Mode::Client);
    assert_eq!(c.port, 5201);
    assert_eq!(c.buffer_size, 128 * 1024);
    assert_eq!(c.parallel, 1);
    assert_eq!(c.interval, Duration::from_secs(1));
    assert!(c.server_addr.is_none() && c.bind_addr.is_none() && c.bandwidth.is_none());
    let s = Config::server(6000).with_interval(Duration::from_secs(2));
    assert_eq!(s.mode, Mode::Server);
    assert_eq!(s.port, 6000);
    assert_eq!(s.interval, Duration::from_secs(2));
    assert_eq!(Config::new().duration, Duration::from_secs(10));
}

#[test]
fn test_to_rperf_config() {
    let t = TestConfiguration {
        protocol: Protocol::Udp,
        server: "10.1.1.1".to_string(),
        port: 7000,
        duration: Duration::from_secs(5),
        bandwidth: Some(2_000_000),
        reverse: true,
        parallel: default_parallel(),
    };
    let c = t.to_rperf_config();
    assert_eq!(c.mode, Mode::Client);
    assert_eq!(c.server_addr.as_deref(), Some("10.1.1.1"));
    assert_eq!(c.port, 7000);
    assert_eq!(c.protocol, Protocol::Udp);
    assert_eq!(c.duration, Duration::from_secs(5));
    assert_eq!(c.bandwidth, Some(2_000_000));
    assert!(c.reverse);
    assert_eq!(c.parallel, 1);
    let t2 = TestConfiguration { bandwidth: None, ..t };
    assert_eq!(t2.to_rperf_config().bandwidth, None);
}

#[test]
fn test_frame_roundtrip() {
    let json = br#"{"type":"Done"}"#;
    let framed = frame_message(json);
    assert_eq!(&framed[..4], &[0, 0, 0, 15]);
    assert_eq!(&framed[4..], json);
    assert_eq!(frame_length([framed[0], framed[1], framed[2], framed[3]]), 15);
    assert_eq!(frame_length([0xFF, 0xFF, 0xFF, 0xFF]), 4_294_967_295);
    assert_eq!(frame_message(b""), vec![0, 0, 0, 0]);
}

#[test]
fn test_client_handshake() {
    let (s, a) = client_step(ClientState::AwaitingAck, false, ControlEvent::SetupAck);
    assert_eq!(s, ClientState::AwaitingStart);
    assert!(matches!(a, ClientAction::ReadNext));
    let (s, a) = client_step(s, true, ControlEvent::Start);
    assert_eq!(s, ClientState::AwaitingResult);
    assert!(matches!(a, ClientAction::Transfer { reverse: true }));
    let (s, a) = client_step(s, true, ControlEvent::ReadFailed);
    assert_eq!(s, ClientState::AwaitingDone);
    assert!(matches!(a, ClientAction::ReadNext));
    let (s, a) = client_step(s, true, ControlEvent::Done);
    assert_eq!(s, ClientState::Finished);
    assert!(matches!(a, ClientAction::Finish));
}

#[test]
fn test_client_handshake_errors() {
    match client_step(ClientState::AwaitingAck, false, ControlEvent::Error("busy".to_string())) {
        (ClientState::Finished, ClientAction::Fail(m)) => assert_eq!(m, "Server error: busy"),
        other => panic!("unexpected {:?}", other),
    }
    match client_step(ClientState::AwaitingAck, false, ControlEvent::Start) {
        (ClientState::Finished, ClientAction::Fail(m)) => assert_eq!(m, "Expected SetupAck message"),
        other => panic!("unexpected {:?}", other),
    }
    match client_step(ClientState::AwaitingStart, false, ControlEvent::Done) {
        (ClientState::Finished, ClientAction::Fail(m)) => assert_eq!(m, "Expected Start message"),
        other => panic!("unexpected {:?}", other),
    }
}

#[test]
fn test_server_plan() {
    let setup = |p: &str| ControlEvent::Setup {
        protocol: p.to_string(),
        duration_secs: 3,
        bandwidth: Some(8),
        buffer_size: 1500,
        parallel: 2,
        reverse: true,
    };
    assert!(matches!(
        server_plan(setup("Udp")),
        Ok(ServerPlan::Udp { duration_secs: 3, reverse: true, bandwidth: Some(8), buffer_size: 1500 })
    ));
    assert!(matches!(
        server_plan(setup("Tcp")),
        Ok(ServerPlan::Tcp { duration_secs: 3, reverse: true, bandwidth: Some(8) })
    ));
    assert!(matches!(
        server_plan(setup("UDP")),
        Ok(ServerPlan::Udp { duration_secs: 3, reverse: true, bandwidth: Some(8), buffer_size: 1500 })
    ));
    assert!(matches!(server_plan(setup("udp")), Ok(ServerPlan::Udp { .. })));
    assert!(matches!(server_plan(setup("TCP")), Ok(ServerPlan::Tcp { .. })));
    assert!(matches!(server_plan(setup("Udp ")), Ok(ServerPlan::Tcp { .. })));
    match server_plan(ControlEvent::Done) {
        Err(m) => assert_eq!(m, "Expected Setup message"),
        Ok(p) => panic!("unexpected {:?}", p),
    }
}

#[test]
fn test_command_line_buffer_size() {
    assert_eq!(command_line_buffer_size(true, 131072), 1500);
    assert_eq!(command_line_buffer_size(false, 131072), 131072);
    assert_eq!(command_line_buffer_size(true, 9000), 9000);
    assert_eq!(command_line_buffer_size(false, 1), 1);
}

#[test]
fn test_client_config_error() {
    let client = Config::client("127.0.0.1".to_string(), 5201);
    assert_eq!(client_config_error(&client), None);
    let server = Config::server(5201);
    assert_eq!(
        client_config_error(&server),
        Some("Server address is required for client mode".to_string())
    );
}

#[test]
fn test_receive_timeout() {
    assert_eq!(receive_timeout_nanos(10_000_000_000, 0), 100_000_000);
    assert_eq!(receive_timeout_nanos(10_000_000_000, 9_950_000_000), 50_000_000);
    assert_eq!(receive_timeout_nanos(10_000_000_000, 10_000_000_000), 0);
    assert_eq!(receive_timeout_nanos(10_000_000_000, 12_000_000_000), 0);
}
