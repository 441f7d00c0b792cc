//! Interval accounting for the periodic progress reports of a transfer, and
//! the layout of a report line.
//!
//! A transfer loop counts the bytes and packets it moves; once an interval
//! has passed it closes the interval, which hands out the counts together
//! with the interval's bounds and starts counting afresh.  Times are
//! nanoseconds since the start of the test.
use vstd::prelude::*;

verus! {

/// Bytes and packets counted since the last report.
#[derive(Debug, Clone, Copy, PartialEq, Eq, Structural)]
pub struct IntervalCounter {
    pub bytes: u64,
    pub packets: u64,
}

/// A closed interval: its bounds and what was counted in it.
#[derive(Debug, Clone, Copy, PartialEq, Eq, Structural)]
pub struct IntervalTotals {
    pub start_nanos: u64,
    pub end_nanos: u64,
    pub bytes: u64,
    pub packets: u64,
}

/// A counter that has counted nothing.
pub open spec fn empty_counter() -> IntervalCounter {
    IntervalCounter { bytes: 0, packets: 0 }
}

/// The counter after one more packet of `bytes` bytes.
pub open spec fn counted(c: IntervalCounter, bytes: u64) -> IntervalCounter {
    IntervalCounter { bytes: (c.bytes + bytes) as u64, packets: (c.packets + 1) as u64 }
}

/// The interval closed at `elapsed_nanos` after `length_nanos`: it starts
/// `length_nanos` before its end, or at the start of the test if that is
/// earlier.
pub open spec fn closed_interval(c: IntervalCounter, elapsed_nanos: u64, length_nanos: u64) -> IntervalTotals {
    IntervalTotals {
        start_nanos: if elapsed_nanos > length_nanos { (elapsed_nanos - length_nanos) as u64 } else { 0 },
        end_nanos: elapsed_nanos,
        bytes: c.bytes,
        packets: c.packets,
    }
}

/// A closed interval ends at the elapsed time it was closed at and covers
/// the given length before it, cut at the start of the test: it starts
/// `length_nanos` before its end whenever the test has run longer than
/// that, its span is the smaller of the two times, and it carries exactly
/// what was counted.
pub proof fn lemma_closed_interval_bounds(c: IntervalCounter, elapsed_nanos: u64, length_nanos: u64)
    ensures
        closed_interval(c, elapsed_nanos, length_nanos).end_nanos == elapsed_nanos,
        elapsed_nanos > length_nanos ==> closed_interval(c, elapsed_nanos, length_nanos).start_nanos
            == elapsed_nanos - length_nanos,
        closed_interval(c, elapsed_nanos, length_nanos).start_nanos <= elapsed_nanos,
        elapsed_nanos - closed_interval(c, elapsed_nanos, length_nanos).start_nanos == if elapsed_nanos
            < length_nanos {
            elapsed_nanos as int
        } else {
            length_nanos as int
        },
        closed_interval(c, elapsed_nanos, length_nanos).bytes == c.bytes,
        closed_interval(c, elapsed_nanos, length_nanos).packets == c.packets,
{
}

impl IntervalCounter {
    /// A counter with nothing counted.
    pub fn new() -> (c: Self)
        ensures
            c == empty_counter(),
    {
        IntervalCounter { bytes: 0, packets: 0 }
    }

    /// Counts one packet (or one write or read) of `bytes` bytes.
    pub fn record(&mut self, bytes: u64)
        requires
            old(self).bytes + bytes <= u64::MAX,
            old(self).packets < u64::MAX,
        ensures
            *final(self) == counted(*old(self), bytes),
    {
        self.bytes = self.bytes + bytes;
        self.packets = self.packets + 1;
    }

    /// Whether an interval of `interval_nanos` has passed since the last
    /// report, `since_last_nanos` ago.
    pub fn is_due(since_last_nanos: u64, interval_nanos: u64) -> (b: bool)
        ensures
            b == (since_last_nanos >= interval_nanos),
    {
        since_last_nanos >= interval_nanos
    }

    /// Closes the current interval, which ends at `elapsed_nanos` and lasted
    /// `length_nanos`, hands out its totals and starts counting afresh.
    pub fn close(&mut self, elapsed_nanos: u64, length_nanos: u64) -> (t: IntervalTotals)
        ensures
            t == closed_interval(*old(self), elapsed_nanos, length_nanos),
            *final(self) == empty_counter(),
    {
        let start_nanos = if elapsed_nanos > length_nanos {
            elapsed_nanos - length_nanos
        } else {
            0
        };
        let t = IntervalTotals { start_nanos, end_nanos: elapsed_nanos, bytes: self.bytes, packets: self.packets };
        self.bytes = 0;
        self.packets = 0;
        t
    }
}

/// What a transfer loop does to its counter.
pub enum IntervalEvent {
    /// A packet of this many bytes was moved
    Record(u64),
    /// The interval was closed at this elapsed time after this length
    Close(u64, u64),
}

/// The counter after `events`, starting from an empty one.
pub open spec fn replay_counter(events: Seq<IntervalEvent>) -> IntervalCounter
    decreases events.len(),
{
    if events.len() == 0 {
        empty_counter()
    } else {
        let c = replay_counter(events.drop_last());
        match events.last() {
            IntervalEvent::Record(b) => counted(c, b),
            IntervalEvent::Close(_, _) => empty_counter(),
        }
    }
}

/// The intervals closed by `events`, in order.
pub open spec fn replay_reports(events: Seq<IntervalEvent>) -> Seq<IntervalTotals>
    decreases events.len(),
{
    if events.len() == 0 {
        Seq::empty()
    } else {
        let r = replay_reports(events.drop_last());
        match events.last() {
            IntervalEvent::Record(_) => r,
            IntervalEvent::Close(e, l) => r.push(
                closed_interval(replay_counter(events.drop_last()), e, l),
            ),
        }
    }
}

/// Whether no `record` along `events` would overflow the counter.
pub open spec fn replay_fits(events: Seq<IntervalEvent>) -> bool
    decreases events.len(),
{
    if events.len() == 0 {
        true
    } else {
        replay_fits(events.drop_last()) && match events.last() {
            IntervalEvent::Record(b) => {
                let c = replay_counter(events.drop_last());
                c.bytes + b <= u64::MAX && c.packets < u64::MAX
            },
            IntervalEvent::Close(_, _) => true,
        }
    }
}

/// The bytes of all packets recorded in `events`.
pub open spec fn recorded_bytes(events: Seq<IntervalEvent>) -> int
    decreases events.len(),
{
    if events.len() == 0 {
        0
    } else {
        recorded_bytes(events.drop_last()) + match events.last() {
            IntervalEvent::Record(b) => b as int,
            IntervalEvent::Close(_, _) => 0,
        }
    }
}

/// The number of packets recorded in `events`.
pub open spec fn recorded_packets(events: Seq<IntervalEvent>) -> int
    decreases events.len(),
{
    if events.len() == 0 {
        0
    } else {
        recorded_packets(events.drop_last()) + match events.last() {
            IntervalEvent::Record(_) => 1int,
            IntervalEvent::Close(_, _) => 0,
        }
    }
}

/// The bytes over all `reports`.
pub open spec fn reported_bytes(reports: Seq<IntervalTotals>) -> int
    decreases reports.len(),
{
    if reports.len() == 0 {
        0
    } else {
        reported_bytes(reports.drop_last()) + reports.last().bytes
    }
}

/// The packets over all `reports`.
pub open spec fn reported_packets(reports: Seq<IntervalTotals>) -> int
    decreases reports.len(),
{
    if reports.len() == 0 {
        0
    } else {
        reported_packets(reports.drop_last()) + reports.last().packets
    }
}

/// Nothing is lost or counted twice: whatever a transfer loop records is, at
/// every moment, either in exactly one closed interval or still being
/// counted, both in bytes and in packets.
pub proof fn lemma_intervals_conserve_counts(events: Seq<IntervalEvent>)
    requires
        replay_fits(events),
    ensures
        reported_bytes(replay_reports(events)) + replay_counter(events).bytes == recorded_bytes(events),
        reported_packets(replay_reports(events)) + replay_counter(events).packets == recorded_packets(events),
    decreases events.len(),
{
    if events.len() > 0 {
        let prefix = events.drop_last();
        lemma_intervals_conserve_counts(prefix);
        match events.last() {
            IntervalEvent::Record(_) => {},
            IntervalEvent::Close(e, l) => {
                let r = replay_reports(prefix);
                let t = closed_interval(replay_counter(prefix), e, l);
                assert(r.push(t).drop_last() =~= r);
            },
        }
    }
}

/// The unit in which a report line shows the transferred amount.
#[derive(Debug, Clone, Copy, PartialEq, Eq, Structural)]
pub enum TransferUnit {
    KBytes,
    MBytes,
    GBytes,
}

/// Gigabytes from a billion bytes on, megabytes from a million, kilobytes
/// below that (decimal units).
pub open spec fn transfer_unit_for(bytes: u64) -> TransferUnit {
    if bytes >= 1_000_000_000 {
        TransferUnit::GBytes
    } else if bytes >= 1_000_000 {
        TransferUnit::MBytes
    } else {
        TransferUnit::KBytes
    }
}

/// The unit in which `bytes` are shown.
pub fn transfer_unit(bytes: u64) -> (u: TransferUnit)
    ensures
        u == transfer_unit_for(bytes),
{
    if bytes >= 1_000_000_000 {
        TransferUnit::GBytes
    } else if bytes >= 1_000_000 {
        TransferUnit::MBytes
    } else {
        TransferUnit::KBytes
    }
}

impl TransferUnit {
    /// The number of bytes in one unit.
    pub fn divisor(&self) -> (d: u64)
        ensures
            d == match *self {
                TransferUnit::KBytes => 1_000u64,
                TransferUnit::MBytes => 1_000_000u64,
                TransferUnit::GBytes => 1_000_000_000u64,
            },
    {
        match self {
            TransferUnit::KBytes => 1_000,
            TransferUnit::MBytes => 1_000_000,
            TransferUnit::GBytes => 1_000_000_000,
        }
    }

    /// The unit's name as printed.
    pub fn label(&self) -> (s: &'static str)
        ensures
            s@ == match *self {
                TransferUnit::KBytes => "KBytes"@,
                TransferUnit::MBytes => "MBytes"@,
                TransferUnit::GBytes => "GBytes"@,
            },
    {
        match self {
            TransferUnit::KBytes => "KBytes",
            TransferUnit::MBytes => "MBytes",
            TransferUnit::GBytes => "GBytes",
        }
    }
}

/// Which columns a report line carries besides time, transfer and bitrate.
#[derive(Debug, Clone, Copy, PartialEq, Eq, Structural)]
pub enum LineLayout {
    /// A UDP line: the packet count
    Udp { packets: u64 },
    /// A TCP line with retransmits and the congestion window in KiB
    TcpWithCwnd { retransmits: u64, cwnd_kbytes: u64 },
    /// A TCP line with retransmits
    TcpWithRetransmits { retransmits: u64 },
    /// No extra column
    Basic,
}

/// A packet count makes a UDP line; otherwise retransmits with a congestion
/// window (shown in KiB, rounded down) make a full TCP line, retransmits
/// alone a shorter one, and nothing a basic line.
pub open spec fn layout_for(packets: Option<u64>, retransmits: Option<u64>, cwnd: Option<u64>) -> LineLayout {
    match packets {
        Some(p) => LineLayout::Udp { packets: p },
        None => match (retransmits, cwnd) {
            (Some(r), Some(w)) => LineLayout::TcpWithCwnd { retransmits: r, cwnd_kbytes: w / 1024 },
            (Some(r), None) => LineLayout::TcpWithRetransmits { retransmits: r },
            (None, _) => LineLayout::Basic,
        },
    }
}

/// The layout of the report line for a report with these optional fields.
pub fn line_layout(packets: Option<u64>, retransmits: Option<u64>, cwnd: Option<u64>) -> (l: LineLayout)
    ensures
        l == layout_for(packets, retransmits, cwnd),
{
    match packets {
        Some(p) => LineLayout::Udp { packets: p },
        None => match (retransmits, cwnd) {
            (Some(r), Some(w)) => LineLayout::TcpWithCwnd { retransmits: r, cwnd_kbytes: w / 1024 },
            (Some(r), None) => LineLayout::TcpWithRetransmits { retransmits: r },
            (None, _) => LineLayout::Basic,
        },
    }
}

} // verus!
