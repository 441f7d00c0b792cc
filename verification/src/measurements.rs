//! Statistics collection: per-stream byte counts, totals, and UDP packet
//! tracking (loss, out-of-order delivery, transit-time differences).
//!
//! Throughput and jitter are floating-point quantities; this module keeps the
//! integer state they are computed from and hands out the transit-time
//! difference of each received UDP packet for the jitter estimate.
use crate::config::{duration_from_secs, secs_duration};
use crate::udp_packet::unix_time_micros;
use std::time::{Duration, Instant};
use vstd::prelude::*;
use vstd::set_lib::{lemma_int_range, lemma_len_subset, lemma_set_difference_len, set_int_range};

verus! {

/// Statistics for a single stream.
#[derive(Debug, Clone, Copy)]
pub struct StreamStats {
    pub stream_id: usize,
    pub bytes_sent: u64,
    pub bytes_received: u64,
    pub duration: Duration,
    pub retransmits: Option<u64>,
}

impl StreamStats {
    /// A stream with no bytes recorded, a zero duration and no retransmit count.
    pub fn new(stream_id: usize) -> (s: Self)
        ensures
            s.stream_id == stream_id,
            s.bytes_sent == 0,
            s.bytes_received == 0,
            s.duration == secs_duration(0),
            s.retransmits is None,
    {
        StreamStats {
            stream_id,
            bytes_sent: 0,
            bytes_received: 0,
            duration: duration_from_secs(0),
            retransmits: None,
        }
    }
}

/// Sum of the bytes sent over the streams.
pub open spec fn sum_sent(s: Seq<StreamStats>) -> int
    decreases s.len(),
{
    if s.len() == 0 {
        0
    } else {
        sum_sent(s.drop_last()) + s.last().bytes_sent
    }
}

/// Sum of the bytes received over the streams.
pub open spec fn sum_received(s: Seq<StreamStats>) -> int
    decreases s.len(),
{
    if s.len() == 0 {
        0
    } else {
        sum_received(s.drop_last()) + s.last().bytes_received
    }
}

/// No two streams share an identifier.
pub open spec fn unique_ids(s: Seq<StreamStats>) -> bool {
    forall|i: int, j: int|
        0 <= i < s.len() && 0 <= j < s.len() && i != j ==> s[i].stream_id != s[j].stream_id
}

/// Whether some stream has the identifier `id`.
pub open spec fn has_stream(s: Seq<StreamStats>, id: usize) -> bool {
    exists|i: int| 0 <= i < s.len() && s[i].stream_id == id
}

proof fn lemma_sum_update(s: Seq<StreamStats>, i: int, x: StreamStats)
    requires
        0 <= i < s.len(),
    ensures
        sum_sent(s.update(i, x)) == sum_sent(s) - s[i].bytes_sent + x.bytes_sent,
        sum_received(s.update(i, x)) == sum_received(s) - s[i].bytes_received + x.bytes_received,
    decreases s.len(),
{
    let u = s.update(i, x);
    if i == s.len() - 1 {
        assert(u.drop_last() =~= s.drop_last());
    } else {
        lemma_sum_update(s.drop_last(), i, x);
        assert(u.drop_last() =~= s.drop_last().update(i, x));
    }
}

proof fn lemma_sum_push(s: Seq<StreamStats>, x: StreamStats)
    ensures
        sum_sent(s.push(x)) == sum_sent(s) + x.bytes_sent,
        sum_received(s.push(x)) == sum_received(s) + x.bytes_received,
{
    assert(s.push(x).drop_last() =~= s);
}

proof fn lemma_sum_bounds(s: Seq<StreamStats>, i: int)
    requires
        0 <= i < s.len(),
    ensures
        s[i].bytes_sent <= sum_sent(s),
        s[i].bytes_received <= sum_received(s),
        0 <= sum_sent(s),
        0 <= sum_received(s),
    decreases s.len(),
{
    lemma_sum_nonneg(s.drop_last());
    if i < s.len() - 1 {
        lemma_sum_bounds(s.drop_last(), i);
    }
}

proof fn lemma_sum_nonneg(s: Seq<StreamStats>)
    ensures
        0 <= sum_sent(s),
        0 <= sum_received(s),
    decreases s.len(),
{
    if s.len() > 0 {
        lemma_sum_nonneg(s.drop_last());
    }
}

proof fn lemma_sum_same_counts(a: Seq<StreamStats>, b: Seq<StreamStats>)
    requires
        a.len() == b.len(),
        forall|i: int|
            #![trigger a[i], b[i]]
            0 <= i < a.len() ==> a[i].bytes_sent == b[i].bytes_sent && a[i].bytes_received
                == b[i].bytes_received && a[i].stream_id == b[i].stream_id,
    ensures
        sum_sent(a) == sum_sent(b),
        sum_received(a) == sum_received(b),
        unique_ids(a) ==> unique_ids(b),
    decreases a.len(),
{
    if a.len() > 0 {
        lemma_sum_same_counts(a.drop_last(), b.drop_last());
        assert(a[a.len() - 1].bytes_sent == b[b.len() - 1].bytes_sent);
    }
    if unique_ids(a) {
        assert forall|i: int, j: int|
            0 <= i < b.len() && 0 <= j < b.len() && i != j implies b[i].stream_id
            != b[j].stream_id by {
            assert(a[i].stream_id == b[i].stream_id);
            assert(a[j].stream_id == b[j].stream_id);
        }
    }
}

/// Statistics snapshot of a test: streams, totals and UDP packet counts.
#[derive(Debug)]
pub struct Measurements {
    pub streams: Vec<StreamStats>,
    pub total_bytes_sent: u64,
    pub total_bytes_received: u64,
    pub total_duration: Duration,
    pub total_packets: u64,
    pub lost_packets: u64,
    pub out_of_order_packets: u64,
    pub start_time: Option<Instant>,
}

/// A copy of the streams of a snapshot.
fn copy_streams(v: &Vec<StreamStats>) -> (r: Vec<StreamStats>)
    ensures
        r@ == v@,
{
    let mut r: Vec<StreamStats> = Vec::with_capacity(v.len());
    let mut i: usize = 0;
    while i < v.len()
        invariant
            i <= v.len(),
            r@ == v@.subrange(0, i as int),
        decreases v.len() - i,
    {
        r.push(v[i]);
        i = i + 1;
        assert(r@ =~= v@.subrange(0, i as int));
    }
    assert(v@.subrange(0, v.len() as int) =~= v@);
    r
}

impl Measurements {
    /// An empty snapshot: no streams, all counts zero, no start time.
    pub fn new() -> (m: Self)
        ensures
            m.streams@ == Seq::<StreamStats>::empty(),
            m.total_bytes_sent == 0,
            m.total_bytes_received == 0,
            m.total_packets == 0,
            m.lost_packets == 0,
            m.out_of_order_packets == 0,
            m.total_duration == secs_duration(0),
            m.start_time is None,
    {
        Measurements {
            streams: Vec::new(),
            total_bytes_sent: 0,
            total_bytes_received: 0,
            total_duration: duration_from_secs(0),
            total_packets: 0,
            lost_packets: 0,
            out_of_order_packets: 0,
            start_time: None,
        }
    }

    /// A copy of this snapshot.
    pub fn copy(&self) -> (r: Self)
        ensures
            r.streams@ == self.streams@,
            r.total_bytes_sent == self.total_bytes_sent,
            r.total_bytes_received == self.total_bytes_received,
            r.total_duration == self.total_duration,
            r.total_packets == self.total_packets,
            r.lost_packets == self.lost_packets,
            r.out_of_order_packets == self.out_of_order_packets,
            r.start_time == self.start_time,
    {
        Measurements {
            streams: copy_streams(&self.streams),
            total_bytes_sent: self.total_bytes_sent,
            total_bytes_received: self.total_bytes_received,
            total_duration: self.total_duration,
            total_packets: self.total_packets,
            lost_packets: self.lost_packets,
            out_of_order_packets: self.out_of_order_packets,
            start_time: self.start_time,
        }
    }

    /// Appends a stream and adds its byte counts to the totals.
    pub fn add_stream(&mut self, stats: StreamStats)
        requires
            old(self).total_bytes_sent + stats.bytes_sent <= u64::MAX,
            old(self).total_bytes_received + stats.bytes_received <= u64::MAX,
        ensures
            final(self).streams@ == old(self).streams@.push(stats),
            final(self).total_bytes_sent == old(self).total_bytes_sent + stats.bytes_sent,
            final(self).total_bytes_received == old(self).total_bytes_received
                + stats.bytes_received,
            final(self).total_duration == old(self).total_duration,
            final(self).total_packets == old(self).total_packets,
            final(self).lost_packets == old(self).lost_packets,
            final(self).out_of_order_packets == old(self).out_of_order_packets,
            final(self).start_time == old(self).start_time,
    {
        self.total_bytes_sent = self.total_bytes_sent + stats.bytes_sent;
        self.total_bytes_received = self.total_bytes_received + stats.bytes_received;
        self.streams.push(stats);
    }

    /// Sets the total duration and the duration of every stream.
    pub fn set_duration(&mut self, duration: Duration)
        ensures
            final(self).total_duration == duration,
            final(self).streams@.len() == old(self).streams@.len(),
            forall|i: int|
                0 <= i < old(self).streams@.len() ==> #[trigger] final(self).streams@[i] == (
                StreamStats { duration, ..old(self).streams@[i] }),
            final(self).total_bytes_sent == old(self).total_bytes_sent,
            final(self).total_bytes_received == old(self).total_bytes_received,
            final(self).total_packets == old(self).total_packets,
            final(self).lost_packets == old(self).lost_packets,
            final(self).out_of_order_packets == old(self).out_of_order_packets,
            final(self).start_time == old(self).start_time,
    {
        self.total_duration = duration;
        let n = self.streams.len();
        let mut i: usize = 0;
        while i < n
            invariant
                i <= n,
                n == old(self).streams@.len(),
                self.streams@.len() == n,
                self.total_duration == duration,
                self.total_bytes_sent == old(self).total_bytes_sent,
                self.total_bytes_received == old(self).total_bytes_received,
                self.total_packets == old(self).total_packets,
                self.lost_packets == old(self).lost_packets,
                self.out_of_order_packets == old(self).out_of_order_packets,
                self.start_time == old(self).start_time,
                forall|j: int|
                    0 <= j < i ==> #[trigger] self.streams@[j] == (StreamStats {
                        duration,
                        ..old(self).streams@[j]
                    }),
                forall|j: int| i <= j < n ==> #[trigger] self.streams@[j] == old(self).streams@[j],
            decreases n - i,
        {
            let mut s = self.streams[i];
            s.duration = duration;
            self.streams.set(i, s);
            i = i + 1;
        }
    }

    /// Records the instant the test started.
    pub fn set_start_time(&mut self, time: Instant)
        ensures
            *final(self) == (Measurements { start_time: Some(time), ..*old(self) }),
    {
        self.start_time = Some(time);
    }

    /// The recorded `(lost_packets, total_packets)`.
    pub fn calculate_udp_loss(&self) -> (r: (u64, u64))
        ensures
            r == (self.lost_packets, self.total_packets),
    {
        (self.lost_packets, self.total_packets)
    }

    /// The counts announced when a test completes: all bytes moved, and the
    /// packet, loss and out-of-order counts where they are not zero.
    pub fn completion_counts(&self) -> (c: CompletionCounts)
        requires
            self.total_bytes_sent + self.total_bytes_received <= u64::MAX,
        ensures
            c.total_bytes == self.total_bytes_sent + self.total_bytes_received,
            c.total_packets == nonzero(self.total_packets),
            c.lost_packets == nonzero(self.lost_packets),
            c.out_of_order == nonzero(self.out_of_order_packets),
    {
        CompletionCounts {
            total_bytes: self.total_bytes_sent + self.total_bytes_received,
            total_packets: if self.total_packets > 0 { Some(self.total_packets) } else { None },
            lost_packets: if self.lost_packets > 0 { Some(self.lost_packets) } else { None },
            out_of_order: if self.out_of_order_packets > 0 {
                Some(self.out_of_order_packets)
            } else {
                None
            },
        }
    }
}

/// `Some(n)` unless `n` is zero.
pub open spec fn nonzero(n: u64) -> Option<u64> {
    if n > 0 { Some(n) } else { None }
}

/// The counts announced when a test completes.
#[derive(Debug, Clone, Copy, PartialEq, Eq, Structural)]
pub struct CompletionCounts {
    /// Bytes sent and received together
    pub total_bytes: u64,
    /// UDP packets, if any were counted
    pub total_packets: Option<u64>,
    /// Lost UDP packets, if any
    pub lost_packets: Option<u64>,
    /// Out-of-order UDP packets, if any
    pub out_of_order: Option<u64>,
}

impl Default for Measurements {
    fn default() -> (m: Self)
        ensures
            m.streams@ == Seq::<StreamStats>::empty(),
            m.total_bytes_sent == 0,
            m.total_bytes_received == 0,
            m.total_packets == 0,
            m.lost_packets == 0,
            m.out_of_order_packets == 0,
            m.start_time is None,
    {
        Self::new()
    }
}


/// UDP packet tracking state of a receiver.
#[derive(Debug, Clone, Copy)]
pub struct UdpPacketState {
    /// Sequence number of the last packet received
    pub last_sequence: Option<u64>,
    /// Highest sequence number received
    pub max_sequence: Option<u64>,
    /// Number of packets received
    pub received_count: u64,
    /// Arrival time of the last packet (microseconds)
    pub last_arrival_us: Option<u64>,
    /// Send timestamp of the last packet (microseconds)
    pub last_send_timestamp_us: Option<u64>,
    /// Number of packets that arrived after a packet with a higher sequence
    pub out_of_order: u64,
}

/// The state before any packet was received.
pub open spec fn udp_initial() -> UdpPacketState {
    UdpPacketState {
        last_sequence: None,
        max_sequence: None,
        received_count: 0,
        last_arrival_us: None,
        last_send_timestamp_us: None,
        out_of_order: 0,
    }
}

/// The state after receiving the packet with sequence `seq`, sent at `send_us`
/// and received at `recv_us`.
pub open spec fn udp_step(s: UdpPacketState, seq: u64, send_us: u64, recv_us: u64) -> UdpPacketState {
    UdpPacketState {
        last_sequence: Some(seq),
        max_sequence: match s.max_sequence {
            Some(m) => if seq > m {
                Some(seq)
            } else {
                Some(m)
            },
            None => Some(seq),
        },
        received_count: (s.received_count + 1) as u64,
        last_arrival_us: Some(recv_us),
        last_send_timestamp_us: Some(send_us),
        out_of_order: if s.last_sequence matches Some(l) && seq < l {
            (s.out_of_order + 1) as u64
        } else {
            s.out_of_order
        },
    }
}

/// `a - b`, or zero when `b > a`.
pub open spec fn sat_sub(a: u64, b: u64) -> u64 {
    if a >= b {
        (a - b) as u64
    } else {
        0
    }
}

/// `|a - b|`.
pub open spec fn abs_diff(a: u64, b: u64) -> u64 {
    if a >= b {
        (a - b) as u64
    } else {
        (b - a) as u64
    }
}

/// The difference between the transit time (receive minus send, clamped at
/// zero) of a packet and that of the previous packet, when there was one.
/// This is the `|D(i-1,i)|` of the RFC 3550 jitter estimate.
pub open spec fn transit_delta(s: UdpPacketState, send_us: u64, recv_us: u64) -> Option<u64> {
    match (s.last_arrival_us, s.last_send_timestamp_us) {
        (Some(la), Some(ls)) => Some(abs_diff(sat_sub(recv_us, send_us), sat_sub(la, ls))),
        _ => None,
    }
}

/// The transit-time differences for the jitter follow the order of arrival
/// (RFC 3550): the first packet has nothing to compare with, and after any
/// accepted packet the next one's difference is between its own transit
/// time and that packet's (each the receive time less the send time, or
/// zero when the clocks disagree), whatever their sequence numbers and
/// whatever arrived before.
pub proof fn lemma_transit_follows_arrival(
    s: UdpPacketState,
    seq1: u64,
    send1: u64,
    recv1: u64,
    send2: u64,
    recv2: u64,
)
    ensures
        transit_delta(udp_initial(), send1, recv1) is None,
        ({
            let t1: int = if recv1 >= send1 { recv1 - send1 } else { 0 };
            let t2: int = if recv2 >= send2 { recv2 - send2 } else { 0 };
            transit_delta(udp_step(s, seq1, send1, recv1), send2, recv2) matches Some(d) && d == if t2
                >= t1 {
                t2 - t1
            } else {
                t1 - t2
            }
        }),
{
}

/// `(lost, expected)`: the packets expected are those up to the highest
/// sequence received (sequences start at 0); the lost ones are the expected
/// ones beyond the count received, or none when more were received.
pub open spec fn udp_loss(s: UdpPacketState) -> (u64, u64) {
    match s.max_sequence {
        None => (0, 0),
        Some(m) => {
            let expected = m + 1;
            (
                if expected > s.received_count {
                    (expected - s.received_count) as u64
                } else {
                    0
                },
                expected as u64,
            )
        },
    }
}

/// Thread-confined statistics collector.  Shared use goes through a lock held
/// by the caller.
#[derive(Debug)]
pub struct MeasurementsCollector {
    inner: Measurements,
    udp_state: UdpPacketState,
    bytes_sent: u64,
    bytes_received: u64,
    packets: u64,
}

impl MeasurementsCollector {
    /// The statistics kept under the lock: streams, duration, start time, and
    /// the loss and out-of-order counts.
    pub closed spec fn base(&self) -> Measurements {
        self.inner
    }

    /// Total bytes sent.
    pub closed spec fn spec_bytes_sent(&self) -> u64 {
        self.bytes_sent
    }

    /// Total bytes received.
    pub closed spec fn spec_bytes_received(&self) -> u64 {
        self.bytes_received
    }

    /// UDP packets sent.
    pub closed spec fn spec_packets(&self) -> u64 {
        self.packets
    }

    /// UDP receive tracking state.
    pub closed spec fn udp(&self) -> UdpPacketState {
        self.udp_state
    }

    /// The totals are the sums over the streams, stream identifiers are
    /// unique, and the UDP counts are consistent.
    pub closed spec fn wf(&self) -> bool {
        &&& sum_sent(self.inner.streams@) == self.bytes_sent
        &&& sum_received(self.inner.streams@) == self.bytes_received
        &&& unique_ids(self.inner.streams@)
        &&& self.inner.out_of_order_packets == self.udp_state.out_of_order
        &&& self.udp_state.out_of_order <= self.udp_state.received_count
        &&& self.udp_state.max_sequence != Some(u64::MAX)
    }

    /// The totals of a collector are the sums of its streams' byte counts,
    /// and no two of its streams share an identifier.
    pub proof fn lemma_totals_are_stream_sums(&self)
        requires
            self.wf(),
        ensures
            sum_sent(self.base().streams@) == self.spec_bytes_sent(),
            sum_received(self.base().streams@) == self.spec_bytes_received(),
            unique_ids(self.base().streams@),
            self.base().out_of_order_packets == self.udp().out_of_order,
            self.base().out_of_order_packets <= self.udp().received_count,
    {
    }

    /// A collector with nothing recorded.
    pub fn new() -> (c: Self)
        ensures
            c.wf(),
            c.base().streams@ == Seq::<StreamStats>::empty(),
            c.base().lost_packets == 0,
            c.base().out_of_order_packets == 0,
            c.base().start_time is None,
            c.base().total_bytes_sent == 0,
            c.base().total_bytes_received == 0,
            c.base().total_packets == 0,
            c.base().total_duration == secs_duration(0),
            c.spec_bytes_sent() == 0,
            c.spec_bytes_received() == 0,
            c.spec_packets() == 0,
            c.udp() == udp_initial(),
    {
        MeasurementsCollector {
            inner: Measurements::new(),
            udp_state: UdpPacketState {
                last_sequence: None,
                max_sequence: None,
                received_count: 0,
                last_arrival_us: None,
                last_send_timestamp_us: None,
                out_of_order: 0,
            },
            bytes_sent: 0,
            bytes_received: 0,
            packets: 0,
        }
    }

    /// The index of the stream with identifier `id`, if any.
    fn find_stream(&self, id: usize) -> (r: Option<usize>)
        ensures
            match r {
                Some(i) => i < self.inner.streams@.len() && self.inner.streams@[i as int].stream_id
                    == id,
                None => !has_stream(self.inner.streams@, id),
            },
    {
        let n = self.inner.streams.len();
        let mut i: usize = 0;
        while i < n
            invariant
                i <= n,
                n == self.inner.streams@.len(),
                forall|j: int| 0 <= j < i ==> self.inner.streams@[j].stream_id != id,
            decreases n - i,
        {
            if self.inner.streams[i].stream_id == id {
                return Some(i);
            }
            i = i + 1;
        }
        None
    }

    /// Records `bytes` bytes sent on stream `stream_id`, creating the stream
    /// when it is new.
    pub fn record_bytes_sent(&mut self, stream_id: usize, bytes: u64)
        requires
            old(self).wf(),
            old(self).spec_bytes_sent() + bytes <= u64::MAX,
        ensures
            final(self).wf(),
            final(self).spec_bytes_sent() == old(self).spec_bytes_sent() + bytes,
            final(self).spec_bytes_received() == old(self).spec_bytes_received(),
            final(self).spec_packets() == old(self).spec_packets(),
            final(self).udp() == old(self).udp(),
            final(self).base().streams@.len() == old(self).base().streams@.len() + if has_stream(
                old(self).base().streams@,
                stream_id,
            ) {
                0int
            } else {
                1int
            },
            forall|i: int|
                0 <= i < old(self).base().streams@.len() ==> #[trigger] final(self).base().streams@[i]
                    == if old(self).base().streams@[i].stream_id == stream_id {
                    StreamStats {
                        bytes_sent: (old(self).base().streams@[i].bytes_sent + bytes) as u64,
                        ..old(self).base().streams@[i]
                    }
                } else {
                    old(self).base().streams@[i]
                },
            !has_stream(old(self).base().streams@, stream_id) ==> {
                let s = final(self).base().streams@.last();
                &&& s.stream_id == stream_id
                &&& s.bytes_sent == bytes
                &&& s.bytes_received == 0
                &&& s.duration == secs_duration(0)
                &&& s.retransmits is None
            },
            final(self).base().total_duration == old(self).base().total_duration,
            final(self).base().start_time == old(self).base().start_time,
            final(self).base().lost_packets == old(self).base().lost_packets,
            final(self).base().out_of_order_packets == old(self).base().out_of_order_packets,
            final(self).base().total_bytes_sent == old(self).base().total_bytes_sent,
            final(self).base().total_bytes_received == old(self).base().total_bytes_received,
            final(self).base().total_packets == old(self).base().total_packets,
    {
        let ghost old_streams = self.inner.streams@;
        proof {
            lemma_sum_nonneg(old_streams);
        }
        self.bytes_sent = self.bytes_sent + bytes;
        match self.find_stream(stream_id) {
            Some(i) => {
                let mut s = self.inner.streams[i];
                proof {
                    lemma_sum_bounds(old_streams, i as int);
                }
                s.bytes_sent = s.bytes_sent + bytes;
                self.inner.streams.set(i, s);
                proof {
                    lemma_sum_update(old_streams, i as int, s);
                }
            },
            None => {
                let mut s = StreamStats::new(stream_id);
                s.bytes_sent = bytes;
                self.inner.streams.push(s);
                proof {
                    lemma_sum_push(old_streams, s);
                }
            },
        }
    }

    /// Records `bytes` bytes received on stream `stream_id`, creating the
    /// stream when it is new.
    pub fn record_bytes_received(&mut self, stream_id: usize, bytes: u64)
        requires
            old(self).wf(),
            old(self).spec_bytes_received() + bytes <= u64::MAX,
        ensures
            final(self).wf(),
            final(self).spec_bytes_received() == old(self).spec_bytes_received() + bytes,
            final(self).spec_bytes_sent() == old(self).spec_bytes_sent(),
            final(self).spec_packets() == old(self).spec_packets(),
            final(self).udp() == old(self).udp(),
            final(self).base().streams@.len() == old(self).base().streams@.len() + if has_stream(
                old(self).base().streams@,
                stream_id,
            ) {
                0int
            } else {
                1int
            },
            forall|i: int|
                0 <= i < old(self).base().streams@.len() ==> #[trigger] final(self).base().streams@[i]
                    == if old(self).base().streams@[i].stream_id == stream_id {
                    StreamStats {
                        bytes_received: (old(self).base().streams@[i].bytes_received
                            + bytes) as u64,
                        ..old(self).base().streams@[i]
                    }
                } else {
                    old(self).base().streams@[i]
                },
            !has_stream(old(self).base().streams@, stream_id) ==> {
                let s = final(self).base().streams@.last();
                &&& s.stream_id == stream_id
                &&& s.bytes_sent == 0
                &&& s.bytes_received == bytes
                &&& s.duration == secs_duration(0)
                &&& s.retransmits is None
            },
            final(self).base().total_duration == old(self).base().total_duration,
            final(self).base().start_time == old(self).base().start_time,
            final(self).base().lost_packets == old(self).base().lost_packets,
            final(self).base().out_of_order_packets == old(self).base().out_of_order_packets,
            final(self).base().total_bytes_sent == old(self).base().total_bytes_sent,
            final(self).base().total_bytes_received == old(self).base().total_bytes_received,
            final(self).base().total_packets == old(self).base().total_packets,
    {
        let ghost old_streams = self.inner.streams@;
        proof {
            lemma_sum_nonneg(old_streams);
        }
        self.bytes_received = self.bytes_received + bytes;
        match self.find_stream(stream_id) {
            Some(i) => {
                let mut s = self.inner.streams[i];
                proof {
                    lemma_sum_bounds(old_streams, i as int);
                }
                s.bytes_received = s.bytes_received + bytes;
                self.inner.streams.set(i, s);
                proof {
                    lemma_sum_update(old_streams, i as int, s);
                }
            },
            None => {
                let mut s = StreamStats::new(stream_id);
                s.bytes_received = bytes;
                self.inner.streams.push(s);
                proof {
                    lemma_sum_push(old_streams, s);
                }
            },
        }
    }
}


impl MeasurementsCollector {
    /// Counts one UDP packet sent (wrapping at `u64::MAX`).
    pub fn record_udp_packet(&mut self, _stream_id: usize)
        requires
            old(self).wf(),
        ensures
            final(self).wf(),
            final(self).spec_packets() == (if old(self).spec_packets() == u64::MAX {
                0
            } else {
                old(self).spec_packets() + 1
            }),
            final(self).base() == old(self).base(),
            final(self).spec_bytes_sent() == old(self).spec_bytes_sent(),
            final(self).spec_bytes_received() == old(self).spec_bytes_received(),
            final(self).udp() == old(self).udp(),
    {
        self.packets = self.packets.wrapping_add(1);
    }

    /// Copies the running totals into the locked statistics.
    pub fn sync_atomic_counters(&mut self)
        requires
            old(self).wf(),
        ensures
            final(self).wf(),
            final(self).base() == (Measurements {
                total_bytes_sent: old(self).spec_bytes_sent(),
                total_bytes_received: old(self).spec_bytes_received(),
                total_packets: old(self).spec_packets(),
                ..old(self).base()
            }),
            final(self).spec_bytes_sent() == old(self).spec_bytes_sent(),
            final(self).spec_bytes_received() == old(self).spec_bytes_received(),
            final(self).spec_packets() == old(self).spec_packets(),
            final(self).udp() == old(self).udp(),
    {
        self.inner.total_bytes_sent = self.bytes_sent;
        self.inner.total_bytes_received = self.bytes_received;
        self.inner.total_packets = self.packets;
    }

    /// Records a received UDP packet: counts it, tracks the highest sequence
    /// and out-of-order arrivals, and returns the transit-time difference to
    /// the previous packet for the jitter estimate.  Packets with sequence
    /// `u64::MAX` are initialization packets and are ignored.
    pub fn record_udp_packet_received(
        &mut self,
        sequence: u64,
        send_timestamp_us: u64,
        recv_timestamp_us: u64,
    ) -> (delta: Option<u64>)
        requires
            old(self).wf(),
            sequence != u64::MAX ==> old(self).udp().received_count < u64::MAX,
        ensures
            final(self).wf(),
            sequence == u64::MAX ==> {
                &&& delta is None
                &&& final(self).udp() == old(self).udp()
                &&& final(self).base() == old(self).base()
            },
            sequence != u64::MAX ==> {
                &&& delta == transit_delta(old(self).udp(), send_timestamp_us, recv_timestamp_us)
                &&& final(self).udp() == udp_step(
                    old(self).udp(),
                    sequence,
                    send_timestamp_us,
                    recv_timestamp_us,
                )
                &&& final(self).base() == (Measurements {
                    out_of_order_packets: final(self).udp().out_of_order,
                    ..old(self).base()
                })
            },
            final(self).spec_bytes_sent() == old(self).spec_bytes_sent(),
            final(self).spec_bytes_received() == old(self).spec_bytes_received(),
            final(self).spec_packets() == old(self).spec_packets(),
    {
        if sequence == u64::MAX {
            return None;
        }
        let st = self.udp_state;
        let max_sequence = match st.max_sequence {
            Some(m) => if sequence > m {
                Some(sequence)
            } else {
                Some(m)
            },
            None => Some(sequence),
        };
        let mut out_of_order = st.out_of_order;
        if let Some(last) = st.last_sequence {
            if sequence < last {
                out_of_order = out_of_order + 1;
                self.inner.out_of_order_packets = self.inner.out_of_order_packets + 1;
            }
        }
        let delta = match (st.last_arrival_us, st.last_send_timestamp_us) {
            (Some(last_arrival), Some(last_send)) => {
                let current_transit = recv_timestamp_us.saturating_sub(send_timestamp_us);
                let previous_transit = last_arrival.saturating_sub(last_send);
                let d = if current_transit >= previous_transit {
                    current_transit - previous_transit
                } else {
                    previous_transit - current_transit
                };
                Some(d)
            },
            _ => None,
        };
        self.udp_state = UdpPacketState {
            last_sequence: Some(sequence),
            max_sequence,
            received_count: st.received_count + 1,
            last_arrival_us: Some(recv_timestamp_us),
            last_send_timestamp_us: Some(send_timestamp_us),
            out_of_order,
        };
        delta
    }

    /// `(lost_packets, expected_packets)` from sequence tracking.
    pub fn calculate_udp_loss(&self) -> (r: (u64, u64))
        requires
            self.wf(),
        ensures
            r == udp_loss(self.udp()),
    {
        match self.udp_state.max_sequence {
            None => (0, 0),
            Some(max) => {
                let expected = max + 1;
                let lost = expected.saturating_sub(self.udp_state.received_count);
                (lost, expected)
            },
        }
    }

    /// Adds `lost` to the lost-packet count.
    pub fn record_udp_loss(&mut self, lost: u64)
        requires
            old(self).wf(),
            old(self).base().lost_packets + lost <= u64::MAX,
        ensures
            final(self).wf(),
            final(self).base() == (Measurements {
                lost_packets: (old(self).base().lost_packets + lost) as u64,
                ..old(self).base()
            }),
            final(self).spec_bytes_sent() == old(self).spec_bytes_sent(),
            final(self).spec_bytes_received() == old(self).spec_bytes_received(),
            final(self).spec_packets() == old(self).spec_packets(),
            final(self).udp() == old(self).udp(),
    {
        self.inner.lost_packets = self.inner.lost_packets + lost;
    }

    /// Sets the test duration, on the totals and on every stream.
    pub fn set_duration(&mut self, duration: Duration)
        requires
            old(self).wf(),
        ensures
            final(self).wf(),
            final(self).base().total_duration == duration,
            final(self).base().streams@.len() == old(self).base().streams@.len(),
            forall|i: int|
                0 <= i < old(self).base().streams@.len() ==> #[trigger] final(self).base().streams@[i]
                    == (StreamStats {
                    duration,
                    ..old(self).base().streams@[i]
                }),
            final(self).base().start_time == old(self).base().start_time,
            final(self).base().lost_packets == old(self).base().lost_packets,
            final(self).base().out_of_order_packets == old(self).base().out_of_order_packets,
            final(self).base().total_packets == old(self).base().total_packets,
            final(self).base().total_bytes_sent == old(self).base().total_bytes_sent,
            final(self).base().total_bytes_received == old(self).base().total_bytes_received,
            final(self).spec_bytes_sent() == old(self).spec_bytes_sent(),
            final(self).spec_bytes_received() == old(self).spec_bytes_received(),
            final(self).spec_packets() == old(self).spec_packets(),
            final(self).udp() == old(self).udp(),
    {
        let ghost before = self.inner.streams@;
        self.inner.set_duration(duration);
        proof {
            lemma_sum_same_counts(before, self.inner.streams@);
        }
    }

    /// Records the instant the test started.
    pub fn set_start_time(&mut self, time: Instant)
        requires
            old(self).wf(),
        ensures
            final(self).wf(),
            final(self).base() == (Measurements { start_time: Some(time), ..old(self).base() }),
            final(self).spec_bytes_sent() == old(self).spec_bytes_sent(),
            final(self).spec_bytes_received() == old(self).spec_bytes_received(),
            final(self).spec_packets() == old(self).spec_packets(),
            final(self).udp() == old(self).udp(),
    {
        self.inner.start_time = Some(time);
    }

    /// A snapshot of the statistics with the running totals filled in; when
    /// bytes were received, the packet and loss counts come from sequence
    /// tracking.
    pub fn get(&self) -> (m: Measurements)
        requires
            self.wf(),
        ensures
            m.streams@ == self.base().streams@,
            sum_sent(m.streams@) == m.total_bytes_sent,
            sum_received(m.streams@) == m.total_bytes_received,
            m.total_duration == self.base().total_duration,
            m.start_time == self.base().start_time,
            m.out_of_order_packets == self.base().out_of_order_packets,
            m.total_bytes_sent == self.spec_bytes_sent(),
            m.total_bytes_received == self.spec_bytes_received(),
            self.spec_bytes_received() > 0 ==> (m.lost_packets, m.total_packets) == udp_loss(
                self.udp(),
            ),
            self.spec_bytes_received() == 0 ==> {
                &&& m.lost_packets == self.base().lost_packets
                &&& m.total_packets == self.spec_packets()
            },
    {
        let mut m = self.inner.copy();
        m.total_bytes_sent = self.bytes_sent;
        m.total_bytes_received = self.bytes_received;
        m.total_packets = self.packets;
        if m.total_bytes_received > 0 {
            let (lost, expected) = self.calculate_udp_loss();
            m.lost_packets = lost;
            m.total_packets = expected;
        }
        m
    }

    /// The statistics of stream `stream_id`, if it exists.
    pub fn get_stream_stats(&self, stream_id: usize) -> (r: Option<StreamStats>)
        requires
            self.wf(),
        ensures
            r is Some <==> has_stream(self.base().streams@, stream_id),
            r matches Some(s) ==> s.stream_id == stream_id && self.base().streams@.contains(s),
    {
        match self.find_stream(stream_id) {
            Some(i) => {
                let s = self.inner.streams[i];
                assert(self.inner.streams@[i as int] == s);
                Some(s)
            },
            None => None,
        }
    }
}

impl MeasurementsCollector {
    /// Total bytes sent so far.
    pub fn total_bytes_sent(&self) -> (n: u64)
        ensures
            n == self.spec_bytes_sent(),
    {
        self.bytes_sent
    }

    /// Total bytes received so far.
    pub fn total_bytes_received(&self) -> (n: u64)
        ensures
            n == self.spec_bytes_received(),
    {
        self.bytes_received
    }

    /// Number of UDP packets received so far (initialization packets aside).
    pub fn udp_received_count(&self) -> (n: u64)
        ensures
            n == self.udp().received_count,
    {
        self.udp_state.received_count
    }

    /// The lost-packet count recorded with `record_udp_loss`.
    pub fn recorded_lost_packets(&self) -> (n: u64)
        ensures
            n == self.base().lost_packets,
    {
        self.inner.lost_packets
    }

    /// The byte totals as last copied in by `sync_atomic_counters`:
    /// `(sent, received)`.
    pub fn synced_totals(&self) -> (r: (u64, u64))
        ensures
            r == (self.base().total_bytes_sent, self.base().total_bytes_received),
    {
        (self.inner.total_bytes_sent, self.inner.total_bytes_received)
    }

    /// The counts of the UDP summary of detailed results: the synced byte
    /// totals added up; loss and expected packets from sequence tracking
    /// when packets were received, otherwise no loss and the packets sent;
    /// the out-of-order count if there is any; and whether more was sent
    /// than received.
    pub fn udp_end_counts(&self) -> (c: UdpEndCounts)
        requires
            self.wf(),
            self.base().total_bytes_sent + self.base().total_bytes_received <= u64::MAX,
        ensures
            c.bytes == self.base().total_bytes_sent + self.base().total_bytes_received,
            self.udp().max_sequence is Some ==> (c.lost_packets, c.packets) == udp_loss(self.udp()),
            self.udp().max_sequence is None ==> c.lost_packets == 0 && c.packets
                == self.spec_packets(),
            c.out_of_order == nonzero(self.base().out_of_order_packets),
            c.sender == (self.base().total_bytes_sent > self.base().total_bytes_received),
    {
        let (lost_packets, packets) = match self.udp_state.max_sequence {
            Some(_) => self.calculate_udp_loss(),
            None => (0, self.packets),
        };
        let out_of_order = if self.inner.out_of_order_packets > 0 {
            Some(self.inner.out_of_order_packets)
        } else {
            None
        };
        UdpEndCounts {
            bytes: self.inner.total_bytes_sent + self.inner.total_bytes_received,
            lost_packets,
            packets,
            out_of_order,
            sender: self.inner.total_bytes_sent > self.inner.total_bytes_received,
        }
    }
}

/// The counts in the UDP summary of detailed results.
#[derive(Debug, Clone, Copy, PartialEq, Eq, Structural)]
pub struct UdpEndCounts {
    /// Bytes sent and received together
    pub bytes: u64,
    /// Packets missing from the sequence
    pub lost_packets: u64,
    /// Packets expected from the highest sequence number received, or the
    /// packets sent when none were received
    pub packets: u64,
    /// Out-of-order arrivals, if there were any
    pub out_of_order: Option<u64>,
    /// Whether this side sent more than it received
    pub sender: bool,
}

impl Default for MeasurementsCollector {
    fn default() -> (c: Self)
        ensures
            c.wf(),
            c.base().streams@ == Seq::<StreamStats>::empty(),
            c.base().lost_packets == 0,
            c.base().out_of_order_packets == 0,
            c.spec_bytes_sent() == 0,
            c.spec_bytes_received() == 0,
            c.spec_packets() == 0,
            c.udp() == udp_initial(),
    {
        Self::new()
    }
}


/// The tracking state after receiving the packets `pkts`, each given as
/// `(sequence, send_us, recv_us)`, in order.
pub open spec fn udp_replay(pkts: Seq<(u64, u64, u64)>) -> UdpPacketState
    decreases pkts.len(),
{
    if pkts.len() == 0 {
        udp_initial()
    } else {
        let p = pkts.last();
        udp_step(udp_replay(pkts.drop_last()), p.0, p.1, p.2)
    }
}

/// The sequence numbers of the packets.
pub open spec fn sequences(pkts: Seq<(u64, u64, u64)>) -> Seq<u64> {
    pkts.map_values(|p: (u64, u64, u64)| p.0)
}

/// How many elements are smaller than the one before them.
pub open spec fn descents(s: Seq<u64>) -> nat
    decreases s.len(),
{
    if s.len() < 2 {
        0
    } else {
        descents(s.drop_last()) + if s.last() < s[s.len() - 2] {
            1nat
        } else {
            0nat
        }
    }
}

/// The largest element of a non-empty sequence.
pub open spec fn seq_max(s: Seq<u64>) -> u64
    decreases s.len(),
{
    if s.len() <= 1 {
        s[0]
    } else if s.last() > seq_max(s.drop_last()) {
        s.last()
    } else {
        seq_max(s.drop_last())
    }
}

/// The sequence numbers from 0 up to `max` that are missing from `s`.
pub open spec fn missing_sequences(s: Seq<u64>, max: u64) -> Set<int> {
    set_int_range(0, max + 1).difference(s.map_values(|x: u64| x as int).to_set())
}

proof fn lemma_seq_max(s: Seq<u64>)
    requires
        s.len() > 0,
    ensures
        s.contains(seq_max(s)),
        forall|i: int| 0 <= i < s.len() ==> s[i] <= seq_max(s),
    decreases s.len(),
{
    if s.len() > 1 {
        lemma_seq_max(s.drop_last());
        assert(forall|i: int| 0 <= i < s.len() - 1 ==> s[i] == s.drop_last()[i]);
        if s.last() > seq_max(s.drop_last()) {
            assert(s[s.len() - 1] == s.last());
        } else {
            let k = choose|k: int| 0 <= k < s.len() - 1 && s.drop_last()[k] == seq_max(s.drop_last());
            assert(s[k] == seq_max(s));
        }
    } else {
        assert(s[0] == seq_max(s));
    }
}

/// Receiving packets counts each of them, tracks the highest and the last
/// sequence number, and counts as out of order exactly the packets whose
/// sequence is lower than that of the packet received just before.
pub proof fn lemma_udp_replay(pkts: Seq<(u64, u64, u64)>)
    requires
        pkts.len() < u64::MAX,
    ensures
        udp_replay(pkts).received_count == pkts.len(),
        udp_replay(pkts).out_of_order == descents(sequences(pkts)),
        pkts.len() == 0 ==> udp_replay(pkts).max_sequence is None && udp_replay(
            pkts,
        ).last_sequence is None,
        pkts.len() > 0 ==> udp_replay(pkts).max_sequence == Some(seq_max(sequences(pkts)))
            && udp_replay(pkts).last_sequence == Some(pkts.last().0),
    decreases pkts.len(),
{
    if pkts.len() > 0 {
        let rest = pkts.drop_last();
        lemma_udp_replay(rest);
        let s = sequences(pkts);
        assert(sequences(rest) =~= s.drop_last());
        lemma_descents_bounded(sequences(rest));
        if pkts.len() >= 2 {
            assert(s[s.len() - 2] == rest.last().0);
        }
    }
}

proof fn lemma_descents_bounded(s: Seq<u64>)
    ensures
        descents(s) <= s.len(),
    decreases s.len(),
{
    if s.len() >= 2 {
        lemma_descents_bounded(s.drop_last());
    }
}

/// When no sequence number arrives twice, the lost count is exactly the
/// number of sequence numbers up to the highest one received that never
/// arrived, and the expected count is the highest sequence plus one.
pub proof fn lemma_udp_loss_counts_missing(pkts: Seq<(u64, u64, u64)>)
    requires
        0 < pkts.len() < u64::MAX,
        sequences(pkts).no_duplicates(),
        forall|i: int| 0 <= i < pkts.len() ==> #[trigger] pkts[i].0 != u64::MAX,
    ensures
        udp_loss(udp_replay(pkts)).1 == seq_max(sequences(pkts)) + 1,
        udp_loss(udp_replay(pkts)).0 == missing_sequences(
            sequences(pkts),
            seq_max(sequences(pkts)),
        ).len(),
{
    let s = sequences(pkts);
    let m = seq_max(s);
    lemma_udp_replay(pkts);
    lemma_seq_max(s);
    let k = choose|k: int| 0 <= k < s.len() && s[k] == m;
    assert(pkts[k].0 == m);
    let si = s.map_values(|x: u64| x as int);
    let range = set_int_range(0, m + 1);
    lemma_int_range(0, m + 1);
    assert(si.no_duplicates()) by {
        assert forall|i: int, j: int| 0 <= i < si.len() && 0 <= j < si.len() && i != j implies si[i]
            != si[j] by {
            assert(s[i] != s[j]);
        }
    }
    si.unique_seq_to_set();
    assert(si.to_set().subset_of(range)) by {
        assert forall|x: int| si.to_set().contains(x) implies range.contains(x) by {
            let i = choose|i: int| 0 <= i < si.len() && si[i] == x;
            assert(s[i] <= m);
        }
    }
    lemma_len_subset(si.to_set(), range);
    assert(range.intersect(si.to_set()) =~= si.to_set());
    lemma_set_difference_len(range, si.to_set());
}


/// Connection information of a test stream.
#[derive(Debug, Clone)]
pub struct ConnectionInfo {
    pub socket_fd: Option<i32>,
    pub local_host: String,
    pub local_port: u16,
    pub remote_host: String,
    pub remote_port: u16,
}

/// Test parameters recorded at test start.
#[derive(Debug, Clone)]
pub struct TestConfig {
    pub protocol: String,
    pub num_streams: usize,
    pub blksize: usize,
    pub omit: u64,
    pub duration: u64,
    pub reverse: bool,
}

/// Version and system details of the host running a test.
#[derive(Debug, Clone)]
pub struct SystemInfo {
    pub version: String,
    pub system_info: String,
    pub timestamp: i64,
    pub timestamp_str: String,
}

/// TCP statistics read from a socket.
#[derive(Debug, Clone, Copy)]
pub struct TcpStats {
    pub retransmits: u64,
    pub snd_cwnd: Option<u64>,
    pub rtt: Option<u64>,
    pub rttvar: Option<u64>,
    pub pmtu: Option<u64>,
}

impl Default for TcpStats {
    /// No retransmits and no other statistics.
    fn default() -> (t: Self)
        ensures
            t == (TcpStats { retransmits: 0, snd_cwnd: None, rtt: None, rttvar: None, pmtu: None }),
    {
        TcpStats { retransmits: 0, snd_cwnd: None, rtt: None, rttvar: None, pmtu: None }
    }
}

/// The fields of the kernel's TCP_INFO record that the statistics use.  The
/// congestion window `snd_cwnd` is counted in segments of `snd_mss` bytes.
#[derive(Debug, Clone, Copy, PartialEq, Eq, Structural)]
pub struct TcpInfoFields {
    pub total_retrans: u32,
    pub snd_mss: u32,
    pub snd_cwnd: u32,
    pub rtt: u32,
    pub rttvar: u32,
    pub pmtu: u32,
}

/// The statistics for a socket whose TCP_INFO query gave `info`, or failed
/// (`None`): the total retransmit count, the congestion window in bytes
/// (segments times the sender's MSS), the round-trip time and its variance
/// in microseconds and the path MTU; or no statistics at all.
pub fn tcp_stats_from_info(info: Option<TcpInfoFields>) -> (t: TcpStats)
    ensures
        t == match info {
            Some(i) => TcpStats {
                retransmits: i.total_retrans as u64,
                snd_cwnd: Some((i.snd_cwnd * i.snd_mss) as u64),
                rtt: Some(i.rtt as u64),
                rttvar: Some(i.rttvar as u64),
                pmtu: Some(i.pmtu as u64),
            },
            None => TcpStats { retransmits: 0, snd_cwnd: None, rtt: None, rttvar: None, pmtu: None },
        },
{
    match info {
        Some(i) => {
            let cwnd_segments = i.snd_cwnd as u64;
            let mss = i.snd_mss as u64;
            assert(cwnd_segments * mss <= 0xffff_ffff_ffff_ffffu64) by (nonlinear_arith)
                requires
                    cwnd_segments <= 0xffff_ffffu64,
                    mss <= 0xffff_ffffu64,
            ;
            TcpStats {
                retransmits: i.total_retrans as u64,
                snd_cwnd: Some(cwnd_segments * mss),
                rtt: Some(i.rtt as u64),
                rttvar: Some(i.rttvar as u64),
                pmtu: Some(i.pmtu as u64),
            }
        },
        None => TcpStats::default(),
    }
}

/// Human- and machine-readable time of a test event.
#[derive(Debug)]
pub struct TimestampInfo {
    pub time: String,
    pub timesecs: i64,
}

/// The server a client connected to.
#[derive(Debug)]
pub struct ConnectingTo {
    pub host: String,
    pub port: u16,
}

/// The `start` section of detailed results.
#[derive(Debug)]
pub struct TestStartInfo {
    pub connected: Vec<ConnectionInfo>,
    pub version: String,
    pub system_info: String,
    pub timestamp: TimestampInfo,
    pub connecting_to: ConnectingTo,
    pub cookie: String,
    pub tcp_mss_default: Option<u32>,
    pub sock_bufsize: u32,
    pub sndbuf_actual: u32,
    pub rcvbuf_actual: u32,
    pub test_start: TestConfig,
}

/// Default MSS reported for TCP tests.
pub const TCP_MSS_DEFAULT: u32 = 1448;

/// Send and receive buffer sizes reported for UDP tests.
pub const UDP_SOCK_BUFFER: u32 = 212992;

/// Send buffer size reported for TCP tests.
pub const TCP_SNDBUF: u32 = 16384;

/// Receive buffer size reported for TCP tests.
pub const TCP_RCVBUF: u32 = 131072;

/// `rand::random::<u128>()`.  Nothing is promised of the value: it is random.
#[verifier::external_body]
fn random_u128() -> u128 {
    rand::random::<u128>()
}

/// The RFC 2822 text (such as `Thu, 1 Jan 1970 00:00:00 +0000`) that
/// chrono gives for the UTC time `secs` seconds after the UNIX epoch.
pub uninterp spec fn rfc2822_text(secs: i64) -> Option<Seq<char>>;

/// The last second that RFC 2822 can write: 9999-12-31 23:59:59 UTC.
pub const RFC2822_LAST_SECS: i64 = 253_402_300_799;

/// `chrono::DateTime::from_timestamp(secs, 0)` written with `to_rfc2822`.
/// The contract only names the text, which depends on `secs` alone.  The
/// range in `requires` keeps the year within 1970 to 9999, where
/// `to_rfc2822` does not panic.
#[verifier::external_body]
fn rfc2822_of_unix_secs(secs: i64) -> (r: Option<String>)
    requires
        0 <= secs <= RFC2822_LAST_SECS,
    ensures
        match r {
            Some(t) => rfc2822_text(secs) == Some(t@),
            None => rfc2822_text(secs) is None,
        },
{
    match chrono::DateTime::from_timestamp(secs, 0) {
        Some(dt) => Some(dt.to_rfc2822()),
        None => None,
    }
}

/// `String::push`: appends one character.
#[verifier::external_body]
fn push_char(s: &mut String, c: char)
    ensures
        final(s)@ == old(s)@.push(c),
{
    s.push(c)
}

/// The lowercase hexadecimal digit for `d < 16`.
pub open spec fn hex_char(d: nat) -> char {
    if d < 10 {
        (48 + d) as char
    } else {
        (87 + d) as char
    }
}

/// The lowercase hexadecimal notation of `n`, without leading zeros
/// (`format!("{:x}", n)`).
pub open spec fn lower_hex(n: nat) -> Seq<char>
    decreases n,
{
    if n < 16 {
        seq![hex_char(n)]
    } else {
        lower_hex(n / 16).push(hex_char(n % 16))
    }
}

fn hex_digit(d: u128) -> (c: char)
    requires
        d < 16,
    ensures
        c == hex_char(d as nat),
{
    if d < 10 {
        ((48 + d) as u8) as char
    } else {
        ((87 + d) as u8) as char
    }
}

fn append_lower_hex(s: &mut String, n: u128)
    ensures
        final(s)@ == old(s)@ + lower_hex(n as nat),
    decreases n,
{
    if n < 16 {
        push_char(s, hex_digit(n));
        assert(final(s)@ =~= old(s)@ + lower_hex(n as nat));
    } else {
        append_lower_hex(s, n / 16);
        push_char(s, hex_digit(n % 16));
        assert(final(s)@ =~= old(s)@ + lower_hex(n as nat));
    }
}

/// The lowercase hexadecimal notation of `n`.
pub fn to_lower_hex(n: u128) -> (s: String)
    ensures
        s@ == lower_hex(n as nat),
{
    let mut s = String::new();
    append_lower_hex(&mut s, n);
    assert(s@ =~= lower_hex(n as nat));
    s
}

/// Whether a protocol name is "UDP" in any letter case, i.e. whether its
/// upper-case form (`str::to_uppercase`) is "UDP".
pub open spec fn names_udp(s: Seq<char>) -> bool {
    &&& s.len() == 3
    &&& (s[0] == 'u' || s[0] == 'U')
    &&& (s[1] == 'd' || s[1] == 'D')
    &&& (s[2] == 'p' || s[2] == 'P')
}

/// Whether `name` names the UDP protocol in any letter case.
pub fn protocol_is_udp(name: &str) -> (b: bool)
    ensures
        b == names_udp(name@),
{
    if name.unicode_len() != 3 {
        return false;
    }
    let a = name.get_char(0);
    let b = name.get_char(1);
    let c = name.get_char(2);
    (a == 'u' || a == 'U') && (b == 'd' || b == 'D') && (c == 'p' || c == 'P')
}

/// `r` is the start section for the given connection, system information,
/// test parameters and version: without system information,
/// `default_system_info` and the fallback time stand in; the cookie is
/// `cookie` in lowercase hexadecimal; the reported MSS and buffer sizes
/// depend on whether the test is a UDP test.
pub open spec fn is_start_info(
    r: TestStartInfo,
    connection_info: Option<ConnectionInfo>,
    system_info: Option<SystemInfo>,
    test_config: TestConfig,
    version: String,
    default_system_info: String,
    cookie: u128,
    fallback_time: String,
    fallback_secs: i64,
) -> bool {
    &&& r.connected@ == (match connection_info {
        Some(c) => seq![c],
        None => Seq::<ConnectionInfo>::empty(),
    })
    &&& r.version == version
    &&& r.system_info == (match system_info {
        Some(s) => s.system_info,
        None => default_system_info,
    })
    &&& r.timestamp.time == (match system_info {
        Some(s) => s.timestamp_str,
        None => fallback_time,
    })
    &&& r.timestamp.timesecs == (match system_info {
        Some(s) => s.timestamp,
        None => fallback_secs,
    })
    &&& r.connecting_to.host@ == (match connection_info {
        Some(c) => c.remote_host@,
        None => Seq::<char>::empty(),
    })
    &&& r.connecting_to.port == (match connection_info {
        Some(c) => c.remote_port,
        None => crate::config::DEFAULT_PORT,
    })
    &&& r.cookie@ == lower_hex(cookie as nat)
    &&& r.tcp_mss_default == (if names_udp(test_config.protocol@) {
        None
    } else {
        Some(TCP_MSS_DEFAULT)
    })
    &&& r.sock_bufsize == 0
    &&& r.sndbuf_actual == (if names_udp(test_config.protocol@) {
        UDP_SOCK_BUFFER
    } else {
        TCP_SNDBUF
    })
    &&& r.rcvbuf_actual == (if names_udp(test_config.protocol@) {
        UDP_SOCK_BUFFER
    } else {
        TCP_RCVBUF
    })
    &&& r.test_start == test_config
}

/// Assembles the start section of detailed results (see `is_start_info`).
pub fn assemble_start_info(
    connection_info: Option<ConnectionInfo>,
    system_info: Option<SystemInfo>,
    test_config: TestConfig,
    version: String,
    default_system_info: String,
    cookie: u128,
    fallback_time: String,
    fallback_secs: i64,
) -> (r: TestStartInfo)
    ensures
        is_start_info(
            r,
            connection_info,
            system_info,
            test_config,
            version,
            default_system_info,
            cookie,
            fallback_time,
            fallback_secs,
        ),
{
    let is_udp = protocol_is_udp(test_config.protocol.as_str());
    let connecting_to = match &connection_info {
        Some(c) => ConnectingTo { host: c.remote_host.clone(), port: c.remote_port },
        None => ConnectingTo { host: String::new(), port: crate::config::DEFAULT_PORT },
    };
    let mut connected: Vec<ConnectionInfo> = Vec::new();
    match connection_info {
        Some(c) => {
            connected.push(c);
        },
        None => {},
    }
    let (system, timestamp) = match system_info {
        Some(s) => (s.system_info, TimestampInfo { time: s.timestamp_str, timesecs: s.timestamp }),
        None => (default_system_info, TimestampInfo { time: fallback_time, timesecs: fallback_secs }),
    };
    TestStartInfo {
        connected,
        version,
        system_info: system,
        timestamp,
        connecting_to,
        cookie: to_lower_hex(cookie),
        tcp_mss_default: if is_udp {
            None
        } else {
            Some(TCP_MSS_DEFAULT)
        },
        sock_bufsize: 0,
        sndbuf_actual: if is_udp {
            UDP_SOCK_BUFFER
        } else {
            TCP_SNDBUF
        },
        rcvbuf_actual: if is_udp {
            UDP_SOCK_BUFFER
        } else {
            TCP_RCVBUF
        },
        test_start: test_config,
    }
}

/// Builds the start section of detailed results with a random cookie; when
/// no system information is given, the current UTC time is reported (the
/// epoch when the clock reads before it, and no text past the year 9999).
pub fn build_start_info(
    connection_info: Option<ConnectionInfo>,
    system_info: Option<SystemInfo>,
    test_config: TestConfig,
    version: String,
    default_system_info: String,
) -> (r: TestStartInfo)
    ensures
        exists|cookie: u128, time: String, secs: i64|
            #[trigger] is_start_info(
                r,
                connection_info,
                system_info,
                test_config,
                version,
                default_system_info,
                cookie,
                time,
                secs,
            ),
{
    let cookie = random_u128();
    let (time, secs) = match &system_info {
        Some(_) => (String::new(), 0i64),
        None => {
            let secs = (unix_time_micros() / 1_000_000) as i64;
            let time = if secs <= RFC2822_LAST_SECS {
                match rfc2822_of_unix_secs(secs) {
                    Some(t) => t,
                    None => String::new(),
                }
            } else {
                String::new()
            };
            (time, secs)
        },
    };
    assemble_start_info(
        connection_info,
        system_info,
        test_config,
        version,
        default_system_info,
        cookie,
        time,
        secs,
    )
}

} // verus!
