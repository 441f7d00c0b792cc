use rperf3::udp_packet::{
    payload_size_for, create_packet, create_packet_with_timestamp, parse_packet, UdpPacketHeader, RPERF3_UDP_MAGIC,
};

#[test]
fn test_header_serialization() {
    let header = UdpPacketHeader::new(42, 1234567890);
    let bytes = header.to_bytes();
    let parsed = UdpPacketHeader::from_bytes(&bytes).expect("Failed to parse header");

    assert_eq!(parsed.magic, RPERF3_UDP_MAGIC);
    assert_eq!(parsed.sequence, 42);
    assert_eq!(parsed.timestamp_us, 1234567890);
}

#[test]
fn test_invalid_magic() {
    let mut bytes = [0u8; UdpPacketHeader::SIZE];
    bytes[0..4].copy_from_slice(&0x12345678u32.to_be_bytes());
    assert!(UdpPacketHeader::from_bytes(&bytes).is_none());
}

#[test]
fn test_packet_creation() {
    let packet = create_packet(100, 1024);
    assert_eq!(packet.len(), UdpPacketHeader::SIZE + 1024);

    let (header, payload) = parse_packet(&packet).expect("Failed to parse packet");
    assert_eq!(header.sequence, 100);
    assert_eq!(payload.len(), 1024);
}

#[test]
fn test_short_packet() {
    let short_packet = vec![0u8; 10];
    assert!(parse_packet(&short_packet).is_none());
}

#[test]
fn test_header_bytes_are_big_endian() {
    let header = UdpPacketHeader::new(0x0102030405060708, 0x1112131415161718);
    let bytes = header.to_bytes();
    assert_eq!(
        bytes,
        [
            0x52, 0x50, 0x46, 0x33, 0x01, 0x02, 0x03, 0x04, 0x05, 0x06, 0x07, 0x08, 0x11, 0x12,
            0x13, 0x14, 0x15, 0x16, 0x17, 0x18
        ]
    );
}

#[test]
fn test_header_roundtrip_extreme_values() {
    let header = UdpPacketHeader::new(u64::MAX, 0);
    let mut bytes = header.to_bytes().to_vec();
    bytes.extend_from_slice(&[9, 9, 9]);
    assert_eq!(UdpPacketHeader::from_bytes(&bytes), Some(header));
}

#[test]
fn test_packet_with_timestamp_roundtrip() {
    let packet = create_packet_with_timestamp(7, 123_456, 5);
    assert_eq!(packet.len(), 25);
    let (header, payload) = parse_packet(&packet).unwrap();
    assert_eq!(header, UdpPacketHeader::new(7, 123_456));
    assert_eq!(payload, &[0u8; 5]);
}

#[test]
fn test_current_time_header_is_recent() {
    let header = UdpPacketHeader::with_current_time(3);
    assert_eq!(header.magic, RPERF3_UDP_MAGIC);
    assert_eq!(header.sequence, 3);
    // 2020-01-01 in microseconds since the epoch
    assert!(header.timestamp_us > 1_577_836_800_000_000);
}

#[test]
fn test_exactly_header_sized_packet() {
    let packet = create_packet_with_timestamp(1, 2, 0);
    let (header, payload) = parse_packet(&packet).unwrap();
    assert_eq!(header.timestamp_us, 2);
    assert!(payload.is_empty());
    assert!(parse_packet(&packet[..19]).is_none());
}

#[test]
fn test_payload_size_for() {
    assert_eq!(payload_size_for(1500), 1480);
    assert_eq!(payload_size_for(21), 1);
    assert_eq!(payload_size_for(20), 1024);
    assert_eq!(payload_size_for(0), 1024);
}
