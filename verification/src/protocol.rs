//! Framing of control messages between client and server.
//!
//! A message travels as a 4-byte big-endian length followed by that many
//! bytes of UTF-8 JSON.
use crate::udp_packet::{be_u32, lemma_u32_be_roundtrip, u32_be};
use vstd::prelude::*;

verus! {

/// Current protocol version for client-server communication.
pub const PROTOCOL_VERSION: u32 = 1;

/// The frame of a JSON payload: its length as a big-endian `u32` (the length
/// taken modulo 2^32, as `as u32` does), then the payload.
pub open spec fn frame(json: Seq<u8>) -> Seq<u8> {
    u32_be(json.len() as u32) + json
}

/// Prefixes a JSON payload with its length.
pub fn frame_message(json: &[u8]) -> (r: Vec<u8>)
    ensures
        r@ == frame(json@),
{
    let len = json.len() as u32;
    let mut r: Vec<u8> = Vec::with_capacity(4);
    r.push(((len >> 24u32) & 0xffu32) as u8);
    r.push(((len >> 16u32) & 0xffu32) as u8);
    r.push(((len >> 8u32) & 0xffu32) as u8);
    r.push((len & 0xffu32) as u8);
    assert(r@ =~= u32_be(len));
    r.extend_from_slice(json);
    proof {
        assert forall|i: int| 4 <= i < r@.len() implies r@[i] == json@[i - 4] by {
            assert(cloned::<u8>(json@[i - 4], r@[i]));
        }
    }
    assert(r@ =~= frame(json@));
    r
}

/// The payload length announced by a frame's 4-byte prefix.
pub fn frame_length(prefix: [u8; 4]) -> (n: usize)
    ensures
        n == be_u32(prefix@),
{
    let v: u32 = (prefix[0] as u32) << 24u32 | (prefix[1] as u32) << 16u32 | (prefix[2] as u32)
        << 8u32 | (prefix[3] as u32);
    v as usize
}

/// The length prefix of a frame announces the payload's length, and the
/// payload follows it unchanged, for every payload shorter than 4 GiB.
pub proof fn lemma_frame_roundtrip(json: Seq<u8>)
    requires
        json.len() <= u32::MAX,
    ensures
        be_u32(frame(json).subrange(0, 4)) == json.len(),
        frame(json).subrange(4, frame(json).len() as int) == json,
{
    lemma_u32_be_roundtrip(json.len() as u32);
    assert(frame(json).subrange(0, 4) =~= u32_be(json.len() as u32));
    assert(frame(json).subrange(4, frame(json).len() as int) =~= json);
}

} // verus!
