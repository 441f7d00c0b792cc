//! UDP packet format with sequence numbers and timestamps for loss and jitter
//! measurement.
//!
//! ```text
//! | Magic (4 bytes) | Sequence (8 bytes) | Timestamp (8 bytes) | Payload (variable) |
//! ```
//!
//! All integers are big-endian.  The magic marker is `0x52504633` ("RPF3").
use vstd::prelude::*;

verus! {

/// Magic marker that identifies packets of this tool ("RPF3" in ASCII).
pub const RPERF3_UDP_MAGIC: u32 = 0x52504633;

/// Big-endian encoding of a `u32`.
pub open spec fn u32_be(v: u32) -> Seq<u8> {
    seq![
        ((v >> 24u32) & 0xffu32) as u8,
        ((v >> 16u32) & 0xffu32) as u8,
        ((v >> 8u32) & 0xffu32) as u8,
        (v & 0xffu32) as u8,
    ]
}

/// Big-endian encoding of a `u64`.
pub open spec fn u64_be(v: u64) -> Seq<u8> {
    seq![
        ((v >> 56u64) & 0xffu64) as u8,
        ((v >> 48u64) & 0xffu64) as u8,
        ((v >> 40u64) & 0xffu64) as u8,
        ((v >> 32u64) & 0xffu64) as u8,
        ((v >> 24u64) & 0xffu64) as u8,
        ((v >> 16u64) & 0xffu64) as u8,
        ((v >> 8u64) & 0xffu64) as u8,
        (v & 0xffu64) as u8,
    ]
}

/// The `u32` whose big-endian encoding is `s[0..4]`.
pub open spec fn be_u32(s: Seq<u8>) -> u32 {
    (s[0] as u32) << 24u32 | (s[1] as u32) << 16u32 | (s[2] as u32) << 8u32 | (s[3] as u32)
}

/// The `u64` whose big-endian encoding is `s[0..8]`.
pub open spec fn be_u64(s: Seq<u8>) -> u64 {
    (s[0] as u64) << 56u64 | (s[1] as u64) << 48u64 | (s[2] as u64) << 40u64 | (s[3] as u64)
        << 32u64 | (s[4] as u64) << 24u64 | (s[5] as u64) << 16u64 | (s[6] as u64) << 8u64 | (
    s[7] as u64)
}

/// UDP packet header with sequence number and timing information.
#[derive(Debug, Clone, Copy, PartialEq, Eq, Structural)]
pub struct UdpPacketHeader {
    /// Magic marker to identify packets of this tool
    pub magic: u32,
    /// Packet sequence number (monotonically increasing)
    pub sequence: u64,
    /// Send timestamp in microseconds since the UNIX epoch
    pub timestamp_us: u64,
}

/// The 20 bytes a header is serialized to.
pub open spec fn header_bytes(h: UdpPacketHeader) -> Seq<u8> {
    u32_be(h.magic) + u64_be(h.sequence) + u64_be(h.timestamp_us)
}

/// What `UdpPacketHeader::from_bytes` gives for the bytes `b`: `None` when
/// fewer than 20 bytes are present or the magic marker does not match,
/// otherwise the header read from the first 20 bytes.
pub open spec fn parse_header(b: Seq<u8>) -> Option<UdpPacketHeader> {
    if b.len() < 20 {
        None
    } else if be_u32(b.subrange(0, 4)) != RPERF3_UDP_MAGIC {
        None
    } else {
        Some(
            UdpPacketHeader {
                magic: be_u32(b.subrange(0, 4)),
                sequence: be_u64(b.subrange(4, 12)),
                timestamp_us: be_u64(b.subrange(12, 20)),
            },
        )
    }
}

pub proof fn lemma_u32_be_roundtrip(v: u32)
    ensures
        be_u32(u32_be(v)) == v,
{
    let b0 = ((v >> 24u32) & 0xffu32) as u8;
    let b1 = ((v >> 16u32) & 0xffu32) as u8;
    let b2 = ((v >> 8u32) & 0xffu32) as u8;
    let b3 = (v & 0xffu32) as u8;
    assert((b0 as u32) << 24u32 | (b1 as u32) << 16u32 | (b2 as u32) << 8u32 | (b3 as u32) == v)
        by (bit_vector)
        requires
            b0 == ((v >> 24u32) & 0xffu32) as u8,
            b1 == ((v >> 16u32) & 0xffu32) as u8,
            b2 == ((v >> 8u32) & 0xffu32) as u8,
            b3 == (v & 0xffu32) as u8,
    ;
}


pub proof fn lemma_u64_be_roundtrip(v: u64)
    ensures
        be_u64(u64_be(v)) == v,
{
    let b0 = ((v >> 56u64) & 0xffu64) as u8;
    let b1 = ((v >> 48u64) & 0xffu64) as u8;
    let b2 = ((v >> 40u64) & 0xffu64) as u8;
    let b3 = ((v >> 32u64) & 0xffu64) as u8;
    let b4 = ((v >> 24u64) & 0xffu64) as u8;
    let b5 = ((v >> 16u64) & 0xffu64) as u8;
    let b6 = ((v >> 8u64) & 0xffu64) as u8;
    let b7 = (v & 0xffu64) as u8;
    assert((b0 as u64) << 56u64 | (b1 as u64) << 48u64 | (b2 as u64) << 40u64 | (b3 as u64)
        << 32u64 | (b4 as u64) << 24u64 | (b5 as u64) << 16u64 | (b6 as u64) << 8u64 | (b7 as u64)
        == v) by (bit_vector)
        requires
            b0 == ((v >> 56u64) & 0xffu64) as u8,
            b1 == ((v >> 48u64) & 0xffu64) as u8,
            b2 == ((v >> 40u64) & 0xffu64) as u8,
            b3 == ((v >> 32u64) & 0xffu64) as u8,
            b4 == ((v >> 24u64) & 0xffu64) as u8,
            b5 == ((v >> 16u64) & 0xffu64) as u8,
            b6 == ((v >> 8u64) & 0xffu64) as u8,
            b7 == (v & 0xffu64) as u8,
    ;
}

pub proof fn lemma_be_u32_roundtrip(s: Seq<u8>)
    requires
        s.len() == 4,
    ensures
        u32_be(be_u32(s)) == s,
{
    let b0 = s[0];
    let b1 = s[1];
    let b2 = s[2];
    let b3 = s[3];
    let v = be_u32(s);
    assert(((v >> 24u32) & 0xffu32) as u8 == b0 && ((v >> 16u32) & 0xffu32) as u8 == b1 && ((v
        >> 8u32) & 0xffu32) as u8 == b2 && (v & 0xffu32) as u8 == b3) by (bit_vector)
        requires
            v == (b0 as u32) << 24u32 | (b1 as u32) << 16u32 | (b2 as u32) << 8u32 | (b3 as u32),
    ;
    assert(u32_be(v) =~= s);
}

pub proof fn lemma_be_u64_roundtrip(s: Seq<u8>)
    requires
        s.len() == 8,
    ensures
        u64_be(be_u64(s)) == s,
{
    let b0 = s[0];
    let b1 = s[1];
    let b2 = s[2];
    let b3 = s[3];
    let b4 = s[4];
    let b5 = s[5];
    let b6 = s[6];
    let b7 = s[7];
    let v = be_u64(s);
    assert(((v >> 56u64) & 0xffu64) as u8 == b0 && ((v >> 48u64) & 0xffu64) as u8 == b1 && ((v
        >> 40u64) & 0xffu64) as u8 == b2 && ((v >> 32u64) & 0xffu64) as u8 == b3 && ((v >> 24u64)
        & 0xffu64) as u8 == b4 && ((v >> 16u64) & 0xffu64) as u8 == b5 && ((v >> 8u64) & 0xffu64)
        as u8 == b6 && (v & 0xffu64) as u8 == b7) by (bit_vector)
        requires
            v == (b0 as u64) << 56u64 | (b1 as u64) << 48u64 | (b2 as u64) << 40u64 | (b3 as u64)
                << 32u64 | (b4 as u64) << 24u64 | (b5 as u64) << 16u64 | (b6 as u64) << 8u64 | (
            b7 as u64),
    ;
    assert(u64_be(v) =~= s);
}


/// Reads the current wall-clock time as microseconds since the UNIX epoch.
///
/// Calls `std::time::SystemTime::now` and `duration_since(UNIX_EPOCH)`, and
/// converts with `as_micros() as u64`.  Nothing is promised of the value: it
/// depends on the clock.  A clock set before the epoch gives 0.
#[verifier::external_body]
pub(crate) fn unix_time_micros() -> u64 {
    match std::time::SystemTime::now().duration_since(std::time::UNIX_EPOCH) {
        Ok(d) => d.as_micros() as u64,
        Err(_) => 0,
    }
}

fn encode_u32_be(v: u32) -> (r: [u8; 4])
    ensures
        r@ == u32_be(v),
{
    let r = [
        ((v >> 24u32) & 0xffu32) as u8,
        ((v >> 16u32) & 0xffu32) as u8,
        ((v >> 8u32) & 0xffu32) as u8,
        (v & 0xffu32) as u8,
    ];
    assert(r@ =~= u32_be(v));
    r
}

fn encode_u64_be(v: u64) -> (r: [u8; 8])
    ensures
        r@ == u64_be(v),
{
    let r = [
        ((v >> 56u64) & 0xffu64) as u8,
        ((v >> 48u64) & 0xffu64) as u8,
        ((v >> 40u64) & 0xffu64) as u8,
        ((v >> 32u64) & 0xffu64) as u8,
        ((v >> 24u64) & 0xffu64) as u8,
        ((v >> 16u64) & 0xffu64) as u8,
        ((v >> 8u64) & 0xffu64) as u8,
        (v & 0xffu64) as u8,
    ];
    assert(r@ =~= u64_be(v));
    r
}

fn decode_u32_be(b: &[u8], at: usize) -> (r: u32)
    requires
        at + 4 <= b@.len(),
    ensures
        r == be_u32(b@.subrange(at as int, at + 4)),
{
    (b[at] as u32) << 24u32 | (b[at + 1] as u32) << 16u32 | (b[at + 2] as u32) << 8u32 | (b[at
        + 3] as u32)
}

fn decode_u64_be(b: &[u8], at: usize) -> (r: u64)
    requires
        at + 8 <= b@.len(),
    ensures
        r == be_u64(b@.subrange(at as int, at + 8)),
{
    (b[at] as u64) << 56u64 | (b[at + 1] as u64) << 48u64 | (b[at + 2] as u64) << 40u64 | (b[at
        + 3] as u64) << 32u64 | (b[at + 4] as u64) << 24u64 | (b[at + 5] as u64) << 16u64 | (b[at
        + 6] as u64) << 8u64 | (b[at + 7] as u64)
}

impl UdpPacketHeader {
    /// Size of the header in bytes: 4 (magic) + 8 (sequence) + 8 (timestamp).
    pub const SIZE: usize = 20;

    /// Creates a header with the magic marker, the given sequence number and
    /// the given send timestamp (microseconds).
    pub fn new(sequence: u64, timestamp_us: u64) -> (h: Self)
        ensures
            h == (UdpPacketHeader { magic: RPERF3_UDP_MAGIC, sequence, timestamp_us }),
    {
        UdpPacketHeader { magic: RPERF3_UDP_MAGIC, sequence, timestamp_us }
    }

    /// Creates a header stamped with the current wall-clock time.
    pub fn with_current_time(sequence: u64) -> (h: Self)
        ensures
            h.magic == RPERF3_UDP_MAGIC,
            h.sequence == sequence,
    {
        let timestamp_us = unix_time_micros();
        Self::new(sequence, timestamp_us)
    }

    /// Serializes the header to 20 big-endian bytes.
    pub fn to_bytes(&self) -> (r: [u8; 20])
        ensures
            r@ == header_bytes(*self),
    {
        let m = encode_u32_be(self.magic);
        let s = encode_u64_be(self.sequence);
        let t = encode_u64_be(self.timestamp_us);
        let r = [
            m[0], m[1], m[2], m[3],
            s[0], s[1], s[2], s[3], s[4], s[5], s[6], s[7],
            t[0], t[1], t[2], t[3], t[4], t[5], t[6], t[7],
        ];
        assert(r@ =~= header_bytes(*self));
        r
    }

    /// Deserializes a header from the first 20 bytes of `bytes`.
    ///
    /// Returns `None` when fewer than 20 bytes are given or the magic marker
    /// does not match.
    pub fn from_bytes(bytes: &[u8]) -> (r: Option<Self>)
        ensures
            r == parse_header(bytes@),
    {
        if bytes.len() < Self::SIZE {
            return None;
        }
        let magic = decode_u32_be(bytes, 0);
        if magic != RPERF3_UDP_MAGIC {
            return None;
        }
        let sequence = decode_u64_be(bytes, 4);
        let timestamp_us = decode_u64_be(bytes, 12);
        Some(UdpPacketHeader { magic, sequence, timestamp_us })
    }
}


/// The bytes of a packet with the given header fields and `payload_size`
/// zero bytes of payload.
pub open spec fn packet_bytes(sequence: u64, timestamp_us: u64, payload_size: nat) -> Seq<u8> {
    header_bytes(UdpPacketHeader { magic: RPERF3_UDP_MAGIC, sequence, timestamp_us }) + Seq::new(
        payload_size,
        |i: int| 0u8,
    )
}

/// What `parse_packet` gives for `b`: the header and every byte after it.
pub open spec fn parse_packet_spec(b: Seq<u8>) -> Option<(UdpPacketHeader, Seq<u8>)> {
    match parse_header(b) {
        Some(h) => Some((h, b.subrange(20, b.len() as int))),
        None => None,
    }
}

/// Creates a packet with the given sequence number and send timestamp and a
/// zero-filled payload of `payload_size` bytes.
pub fn create_packet_with_timestamp(sequence: u64, timestamp_us: u64, payload_size: usize) -> (r:
    Vec<u8>)
    requires
        payload_size <= usize::MAX - 20,
    ensures
        r@ == packet_bytes(sequence, timestamp_us, payload_size as nat),
{
    let header = UdpPacketHeader::new(sequence, timestamp_us);
    let bytes = header.to_bytes();
    let mut packet: Vec<u8> = Vec::with_capacity(UdpPacketHeader::SIZE + payload_size);
    let mut i: usize = 0;
    while i < 20
        invariant
            i <= 20,
            bytes@ == header_bytes(header),
            packet@ == bytes@.subrange(0, i as int),
        decreases 20 - i,
    {
        packet.push(bytes[i]);
        i = i + 1;
        assert(packet@ =~= bytes@.subrange(0, i as int));
    }
    let total = UdpPacketHeader::SIZE + payload_size;
    while packet.len() < total
        invariant
            20 <= packet@.len() <= total,
            total == 20 + payload_size,
            packet@ == packet_bytes(sequence, timestamp_us, (packet@.len() - 20) as nat),
        decreases total - packet@.len(),
    {
        packet.push(0u8);
        assert(packet@ =~= packet_bytes(sequence, timestamp_us, (packet@.len() - 20) as nat));
    }
    packet
}

/// Creates a packet with the given sequence number, stamped with the current
/// wall-clock time, and a zero-filled payload of `payload_size` bytes.
pub fn create_packet(sequence: u64, payload_size: usize) -> (r: Vec<u8>)
    requires
        payload_size <= usize::MAX - 20,
    ensures
        exists|t: u64| r@ == packet_bytes(sequence, t, payload_size as nat),
{
    let timestamp_us = unix_time_micros();
    create_packet_with_timestamp(sequence, timestamp_us, payload_size)
}

/// The payload size of the packets of a UDP test with `buffer_size`-byte
/// buffers: what is left of a buffer after the header, or 1024 bytes when
/// the buffer is no larger than a header.
pub fn payload_size_for(buffer_size: usize) -> (n: usize)
    ensures
        n == (if buffer_size > 20 { (buffer_size - 20) as usize } else { 1024usize }),
{
    if buffer_size > UdpPacketHeader::SIZE {
        buffer_size - UdpPacketHeader::SIZE
    } else {
        1024
    }
}

/// Parses a packet into its header and payload.
///
/// Returns `None` when the packet has no valid header (too short or wrong
/// magic marker).
pub fn parse_packet(packet: &[u8]) -> (r: Option<(UdpPacketHeader, &[u8])>)
    ensures
        match r {
            Some((h, p)) => parse_packet_spec(packet@) == Some((h, p@)),
            None => parse_packet_spec(packet@) is None,
        },
{
    match UdpPacketHeader::from_bytes(packet) {
        Some(header) => {
            let (_head, payload) = packet.split_at(UdpPacketHeader::SIZE);
            Some((header, payload))
        },
        None => None,
    }
}

/// Reading back a serialized header gives the header again, whatever bytes
/// follow it, provided it carries the magic marker.
pub proof fn lemma_header_roundtrip(h: UdpPacketHeader, rest: Seq<u8>)
    requires
        h.magic == RPERF3_UDP_MAGIC,
    ensures
        parse_header(header_bytes(h) + rest) == Some(h),
{
    let b = header_bytes(h) + rest;
    lemma_u32_be_roundtrip(h.magic);
    lemma_u64_be_roundtrip(h.sequence);
    lemma_u64_be_roundtrip(h.timestamp_us);
    assert(b.subrange(0, 4) =~= u32_be(h.magic));
    assert(b.subrange(4, 12) =~= u64_be(h.sequence));
    assert(b.subrange(12, 20) =~= u64_be(h.timestamp_us));
}

/// A header has one encoding: when bytes parse to a header, their first 20
/// bytes are that header's serialization.
pub proof fn lemma_header_unique_encoding(b: Seq<u8>)
    ensures
        parse_header(b) matches Some(h) ==> header_bytes(h) == b.subrange(0, 20),
{
    if let Some(h) = parse_header(b) {
        lemma_be_u32_roundtrip(b.subrange(0, 4));
        lemma_be_u64_roundtrip(b.subrange(4, 12));
        lemma_be_u64_roundtrip(b.subrange(12, 20));
        assert(header_bytes(h) =~= b.subrange(0, 20));
    }
}

/// Parsing a created packet gives back its sequence number, its timestamp and
/// a zero payload of the requested size.
pub proof fn lemma_packet_roundtrip(sequence: u64, timestamp_us: u64, payload_size: nat)
    ensures
        parse_packet_spec(packet_bytes(sequence, timestamp_us, payload_size)) == Some(
            (
                UdpPacketHeader { magic: RPERF3_UDP_MAGIC, sequence, timestamp_us },
                Seq::new(payload_size, |i: int| 0u8),
            ),
        ),
{
    let h = UdpPacketHeader { magic: RPERF3_UDP_MAGIC, sequence, timestamp_us };
    let z = Seq::new(payload_size, |i: int| 0u8);
    lemma_header_roundtrip(h, z);
    let b = packet_bytes(sequence, timestamp_us, payload_size);
    assert(b.subrange(20, b.len() as int) =~= z);
}

} // verus!
