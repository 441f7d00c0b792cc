//! Token bucket rate limiter for bandwidth control.
//!
//! The bucket holds a count of available tokens (bytes).  Tokens are added at
//! the target rate, up to a capacity of a tenth of a second's worth of data
//! (at least 8192), and removed when data is sent.  When tokens run out the
//! sender sleeps until enough have accumulated.  All arithmetic is integer.
use std::time::Instant;
use vstd::prelude::*;

verus! {

#[verifier::external_type_specification]
#[verifier::external_body]
pub struct ExInstant(std::time::Instant);

/// Reads the monotonic clock (`std::time::Instant::now`).  Nothing is promised
/// of the value.
#[verifier::external_body]
fn instant_now() -> Instant {
    Instant::now()
}

/// Whole microseconds from `earlier` to `later`
/// (`later.duration_since(earlier).as_micros() as u64`; zero when `later` is
/// not after `earlier`).  Nothing is promised of the value: it depends on the
/// clock readings, which are opaque.
#[verifier::external_body]
fn micros_between(earlier: &Instant, later: &Instant) -> u64 {
    later.duration_since(*earlier).as_micros() as u64
}

/// Nanoseconds a wait must exceed before the sender actually sleeps.
pub const MIN_SLEEP_NANOS: u64 = 10_000;

/// Minimum bucket capacity in tokens (bytes).
pub const MIN_CAPACITY: u64 = 8192;

/// The capacity for a rate: a tenth of a second of data, at least 8192.
pub open spec fn capacity_for(bytes_per_sec: u64) -> int {
    if bytes_per_sec / 10 > MIN_CAPACITY {
        (bytes_per_sec / 10) as int
    } else {
        MIN_CAPACITY as int
    }
}

/// Nanoseconds per byte for a rate (zero for a zero rate).
pub open spec fn nanos_per_byte_for(bytes_per_sec: u64) -> int {
    if bytes_per_sec > 0 {
        1_000_000_000int / (bytes_per_sec as int)
    } else {
        0
    }
}

/// Tokens earned by `elapsed_micros` microseconds at `bytes_per_sec`.
pub open spec fn tokens_earned(elapsed_micros: u64, bytes_per_sec: u64) -> int {
    (elapsed_micros as int * bytes_per_sec as int) / 1_000_000int
}

/// The token count after adding `add` tokens to `tokens`, capped at `capacity`.
pub open spec fn capped_add(tokens: int, add: int, capacity: int) -> int {
    if tokens + add < capacity {
        tokens + add
    } else {
        capacity
    }
}

/// The nanoseconds to wait for `shortfall` tokens: the shortfall times the
/// nanoseconds per byte; when a byte takes less than a nanosecond (rates
/// above 10^9 bytes per second, where `nanos_per_byte` is 0), the time the
/// rate takes to earn the shortfall, rounded up.
pub open spec fn wait_for(shortfall: int, bytes_per_sec: u64, nanos_per_byte: u64) -> int {
    if nanos_per_byte > 0 {
        shortfall * nanos_per_byte
    } else {
        (shortfall * 1_000_000_000 + bytes_per_sec - 1) / (bytes_per_sec as int)
    }
}

/// The wait owed before sending `bytes` from a bucket holding `tokens`
/// (see `wait_for`), whenever there is a shortfall and the wait is longer
/// than `MIN_SLEEP_NANOS`.  A zero rate sets no limit and owes no wait.
pub open spec fn owed_wait(tokens: int, bytes: int, bytes_per_sec: u64, nanos_per_byte: u64) -> Option<int> {
    if tokens < bytes && bytes_per_sec > 0 && wait_for(bytes - tokens, bytes_per_sec, nanos_per_byte)
        > MIN_SLEEP_NANOS {
        Some(wait_for(bytes - tokens, bytes_per_sec, nanos_per_byte))
    } else {
        None
    }
}

/// Token bucket rate limiter.
pub struct TokenBucket {
    /// Target bytes per second
    pub bytes_per_sec: u64,
    /// Current number of available tokens (bytes); negative after a send
    /// that did not wait for its full allowance
    pub tokens: i64,
    /// Maximum burst size (tokens)
    pub capacity: i64,
    /// Nanoseconds per byte at the rate, rounded down
    pub nanos_per_byte: u64,
    /// Last time tokens were refilled
    pub last_refill: Instant,
}

impl TokenBucket {
    /// The bucket's parameters agree with its rate and it holds no more tokens
    /// than its capacity.
    pub open spec fn wf(&self) -> bool {
        &&& self.capacity == capacity_for(self.bytes_per_sec)
        &&& self.nanos_per_byte == nanos_per_byte_for(self.bytes_per_sec)
        &&& self.tokens <= self.capacity
    }

    fn capacity_of(bytes_per_sec: u64) -> (c: i64)
        ensures
            c == capacity_for(bytes_per_sec),
    {
        let tenth = bytes_per_sec / 10;
        if tenth > MIN_CAPACITY {
            tenth as i64
        } else {
            MIN_CAPACITY as i64
        }
    }

    fn nanos_per_byte_of(bytes_per_sec: u64) -> (n: u64)
        ensures
            n == nanos_per_byte_for(bytes_per_sec),
    {
        if bytes_per_sec > 0 {
            1_000_000_000 / bytes_per_sec
        } else {
            0
        }
    }

    /// Creates a full bucket for the given rate in bytes per second.
    pub fn new(bytes_per_sec: u64) -> (b: Self)
        ensures
            b.wf(),
            b.bytes_per_sec == bytes_per_sec,
            b.tokens == b.capacity,
    {
        let capacity = Self::capacity_of(bytes_per_sec);
        let nanos_per_byte = Self::nanos_per_byte_of(bytes_per_sec);
        TokenBucket {
            bytes_per_sec,
            tokens: capacity,
            capacity,
            nanos_per_byte,
            last_refill: instant_now(),
        }
    }

    /// Adds the tokens earned over `elapsed_micros` microseconds, up to the
    /// capacity.  When at least one token was earned, `now` becomes the time
    /// of the last refill; otherwise nothing changes, so that fractions of a
    /// token keep accumulating.
    pub fn refill_elapsed(&mut self, elapsed_micros: u64, now: Instant)
        ensures
            final(self).bytes_per_sec == old(self).bytes_per_sec,
            final(self).capacity == old(self).capacity,
            final(self).nanos_per_byte == old(self).nanos_per_byte,
            tokens_earned(elapsed_micros, old(self).bytes_per_sec) > 0 ==> {
                &&& final(self).tokens == capped_add(
                    old(self).tokens as int,
                    tokens_earned(elapsed_micros, old(self).bytes_per_sec),
                    old(self).capacity as int,
                )
                &&& final(self).last_refill == now
            },
            tokens_earned(elapsed_micros, old(self).bytes_per_sec) <= 0 ==> *final(self) == *old(
                self,
            ),
            final(self).tokens == replay_tokens(
                old(self).tokens as int,
                old(self).capacity as int,
                old(self).bytes_per_sec,
                seq![BucketEvent::Refill(elapsed_micros)],
            ),
            old(self).wf() ==> final(self).wf(),
            old(self).tokens <= old(self).capacity ==> old(self).tokens <= final(self).tokens,
    {
        let m = elapsed_micros as u128;
        let r = self.bytes_per_sec as u128;
        assert(m * r <= 0xffff_ffff_ffff_ffffu128 * 0xffff_ffff_ffff_ffffu128) by (nonlinear_arith)
            requires
                m <= 0xffff_ffff_ffff_ffffu128,
                r <= 0xffff_ffff_ffff_ffffu128,
        ;
        let earned: u128 = m * r / 1_000_000;
        if earned > 0 {
            let room: i128 = self.capacity as i128 - self.tokens as i128;
            if (earned as i128) < room {
                self.tokens = (self.tokens as i128 + earned as i128) as i64;
            } else {
                self.tokens = self.capacity;
            }
            self.last_refill = now;
        }
        proof {
            let ev = seq![BucketEvent::Refill(elapsed_micros)];
            assert(ev.drop_last() =~= Seq::<BucketEvent>::empty());
            reveal_with_fuel(replay_tokens, 2);
        }
    }

    /// Adds the tokens earned since the last refill, according to the clock.
    pub fn refill(&mut self)
        ensures
            final(self).bytes_per_sec == old(self).bytes_per_sec,
            final(self).capacity == old(self).capacity,
            final(self).nanos_per_byte == old(self).nanos_per_byte,
            exists|elapsed: u64|
                #![trigger tokens_earned(elapsed, old(self).bytes_per_sec)]
                final(self).tokens == if tokens_earned(elapsed, old(self).bytes_per_sec) > 0 {
                    capped_add(
                        old(self).tokens as int,
                        tokens_earned(elapsed, old(self).bytes_per_sec),
                        old(self).capacity as int,
                    )
                } else {
                    old(self).tokens as int
                },
            old(self).wf() ==> final(self).wf(),
            old(self).tokens <= old(self).capacity ==> old(self).tokens <= final(self).tokens,
    {
        let now = instant_now();
        let elapsed = micros_between(&self.last_refill, &now);
        self.refill_elapsed(elapsed, now);
        assert(tokens_earned(elapsed, old(self).bytes_per_sec) == tokens_earned(
            elapsed,
            old(self).bytes_per_sec,
        ));
    }

    /// How long a sender of `bytes` bytes must sleep before sending: the
    /// shortfall times the nanoseconds per byte, or, above 10^9 bytes per
    /// second, the time the rate takes to earn the shortfall (see
    /// `owed_wait`); at most `u64::MAX` nanoseconds; `None` when nothing is
    /// owed.
    pub fn wait_nanos(&self, bytes: usize) -> (r: Option<u64>)
        requires
            bytes <= i64::MAX,
        ensures
            r == match owed_wait(
                self.tokens as int,
                bytes as int,
                self.bytes_per_sec,
                self.nanos_per_byte,
            ) {
                Some(w) => Some(if w <= u64::MAX { w as u64 } else { u64::MAX }),
                None => None,
            },
    {
        let bytes = bytes as i64;
        if self.tokens < bytes && self.bytes_per_sec > 0 {
            let shortfall: u128 = (bytes as i128 - self.tokens as i128) as u128;
            let wait: u128 = if self.nanos_per_byte > 0 {
                let per_byte = self.nanos_per_byte as u128;
                assert(shortfall * per_byte <= 0x1_0000_0000_0000_0000u128 * 0xffff_ffff_ffff_ffffu128)
                    by (nonlinear_arith)
                    requires
                        shortfall <= 0x1_0000_0000_0000_0000u128,
                        per_byte <= 0xffff_ffff_ffff_ffffu128,
                ;
                shortfall * per_byte
            } else {
                let rate: u128 = self.bytes_per_sec as u128;
                assert(shortfall * 1_000_000_000 + rate - 1 <= 0x1_0000_0000_0000_0000u128
                    * 1_000_000_000 + 0x1_0000_0000_0000_0000u128) by (nonlinear_arith)
                    requires
                        shortfall <= 0x1_0000_0000_0000_0000u128,
                        rate <= 0xffff_ffff_ffff_ffffu128,
                ;
                (shortfall * 1_000_000_000 + rate - 1) / rate
            };
            if wait > MIN_SLEEP_NANOS as u128 {
                if wait <= u64::MAX as u128 {
                    return Some(wait as u64);
                } else {
                    return Some(u64::MAX);
                }
            }
        }
        None
    }

    /// Removes the tokens for `bytes` sent bytes.
    pub fn take(&mut self, bytes: usize)
        requires
            bytes <= i64::MAX,
            old(self).tokens - bytes >= i64::MIN,
        ensures
            final(self).tokens == old(self).tokens - bytes,
            final(self).tokens == replay_tokens(
                old(self).tokens as int,
                old(self).capacity as int,
                old(self).bytes_per_sec,
                seq![BucketEvent::Take(bytes as u64)],
            ),
            final(self).bytes_per_sec == old(self).bytes_per_sec,
            final(self).capacity == old(self).capacity,
            final(self).nanos_per_byte == old(self).nanos_per_byte,
            old(self).wf() ==> final(self).wf(),
    {
        self.tokens = self.tokens - bytes as i64;
        proof {
            let ev = seq![BucketEvent::Take(bytes as u64)];
            assert(ev.drop_last() =~= Seq::<BucketEvent>::empty());
            reveal_with_fuel(replay_tokens, 2);
        }
    }

    /// Refills the bucket to capacity and restarts its clock.
    pub fn reset(&mut self)
        ensures
            final(self).tokens == old(self).capacity,
            final(self).bytes_per_sec == old(self).bytes_per_sec,
            final(self).capacity == old(self).capacity,
            final(self).nanos_per_byte == old(self).nanos_per_byte,
    {
        self.tokens = self.capacity;
        self.last_refill = instant_now();
    }

    /// The number of bytes that can be sent now without sleeping.
    pub fn available_tokens(&self) -> (t: i64)
        ensures
            t == self.tokens,
    {
        self.tokens
    }

    /// Changes the rate, recomputes capacity and timing, and resets the bucket.
    pub fn set_bandwidth(&mut self, bytes_per_sec: u64)
        ensures
            final(self).wf(),
            final(self).bytes_per_sec == bytes_per_sec,
            final(self).tokens == final(self).capacity,
    {
        self.bytes_per_sec = bytes_per_sec;
        self.capacity = Self::capacity_of(bytes_per_sec);
        self.nanos_per_byte = Self::nanos_per_byte_of(bytes_per_sec);
        self.reset();
    }
}

/// What a sender does to its bucket.
pub enum BucketEvent {
    /// A refill after this many microseconds since the last one
    Refill(u64),
    /// Sending this many bytes
    Take(u64),
}

/// The tokens of a bucket of `capacity` at `bytes_per_sec` that held
/// `tokens`, after `events`, as `refill_elapsed` and `take` change them.
pub open spec fn replay_tokens(tokens: int, capacity: int, bytes_per_sec: u64, events: Seq<BucketEvent>) -> int
    decreases events.len(),
{
    if events.len() == 0 {
        tokens
    } else {
        let t = replay_tokens(tokens, capacity, bytes_per_sec, events.drop_last());
        match events.last() {
            BucketEvent::Refill(e) => if tokens_earned(e, bytes_per_sec) > 0 {
                capped_add(t, tokens_earned(e, bytes_per_sec), capacity)
            } else {
                t
            },
            BucketEvent::Take(b) => t - b,
        }
    }
}

/// The bytes sent over `events`.
pub open spec fn taken_total(events: Seq<BucketEvent>) -> int
    decreases events.len(),
{
    if events.len() == 0 {
        0
    } else {
        taken_total(events.drop_last()) + match events.last() {
            BucketEvent::Refill(_) => 0int,
            BucketEvent::Take(b) => b as int,
        }
    }
}

/// The microseconds covered by the refills in `events`.
pub open spec fn elapsed_total(events: Seq<BucketEvent>) -> int
    decreases events.len(),
{
    if events.len() == 0 {
        0
    } else {
        elapsed_total(events.drop_last()) + match events.last() {
            BucketEvent::Refill(e) => e as int,
            BucketEvent::Take(_) => 0int,
        }
    }
}

proof fn lemma_floor_sum(a: int, b: int, d: int)
    requires
        0 <= a,
        0 <= b,
        0 < d,
    ensures
        a / d + b / d <= (a + b) / d,
{
    vstd::arithmetic::div_mod::lemma_fundamental_div_mod(a, d);
    vstd::arithmetic::div_mod::lemma_fundamental_div_mod(b, d);
    vstd::arithmetic::div_mod::lemma_fundamental_div_mod(a + b, d);
    let qa = a / d;
    let qb = b / d;
    let q = (a + b) / d;
    assert((qa + qb) * d <= a + b) by (nonlinear_arith)
        requires
            a == d * qa + a % d,
            b == d * qb + b % d,
            0 <= a % d,
            0 <= b % d,
    ;
    assert(qa + qb <= q) by (nonlinear_arith)
        requires
            (qa + qb) * d <= a + b,
            a + b == d * q + (a + b) % d,
            (a + b) % d < d,
            0 < d,
    ;
}

/// The bucket's books: over any run of refills and sends from a bucket
/// holding no more than its capacity, the bytes sent are at most the tokens
/// held at the start plus the rate times the elapsed time, less the tokens
/// held at the end (a negative count is a debt that later refills repay
/// first); and the bucket never holds more than its capacity.
pub proof fn lemma_bucket_rate_limit(tokens: int, capacity: int, bytes_per_sec: u64, events: Seq<BucketEvent>)
    requires
        tokens <= capacity,
    ensures
        replay_tokens(tokens, capacity, bytes_per_sec, events) <= capacity,
        taken_total(events) <= tokens - replay_tokens(tokens, capacity, bytes_per_sec, events) + (
        elapsed_total(events) * bytes_per_sec) / 1_000_000,
    decreases events.len(),
{
    if events.len() > 0 {
        let prefix = events.drop_last();
        lemma_bucket_rate_limit(tokens, capacity, bytes_per_sec, prefix);
        match events.last() {
            BucketEvent::Refill(e) => {
                let before = elapsed_total(prefix);
                assert(before >= 0) by {
                    lemma_elapsed_nonneg(prefix);
                }
                assert(before * bytes_per_sec >= 0) by (nonlinear_arith)
                    requires
                        before >= 0,
                ;
                assert(e as int * bytes_per_sec >= 0) by (nonlinear_arith);
                lemma_floor_sum(before * bytes_per_sec, e as int * bytes_per_sec, 1_000_000);
                assert((before + e) * bytes_per_sec == before * bytes_per_sec + e as int
                    * bytes_per_sec) by (nonlinear_arith);
            },
            BucketEvent::Take(_) => {},
        }
    }
}

proof fn lemma_elapsed_nonneg(events: Seq<BucketEvent>)
    ensures
        elapsed_total(events) >= 0,
    decreases events.len(),
{
    if events.len() > 0 {
        lemma_elapsed_nonneg(events.drop_last());
    }
}

/// The most a bucket at `bytes_per_sec` can owe when every send waits as
/// `wait_nanos` asks: the shortfall whose wait is too short to sleep for,
/// that is `MIN_SLEEP_NANOS` divided by the nanoseconds per byte, or, above
/// 10^9 bytes per second, the tokens the rate earns in `MIN_SLEEP_NANOS`.
pub open spec fn debt_bound(bytes_per_sec: u64) -> int {
    if nanos_per_byte_for(bytes_per_sec) > 0 {
        MIN_SLEEP_NANOS as int / nanos_per_byte_for(bytes_per_sec)
    } else {
        (bytes_per_sec as int * MIN_SLEEP_NANOS as int) / 1_000_000_000
    }
}

/// Whether every send in `events` happens when the bucket owes no wait for
/// it (`owed_wait` is `None` with the nanoseconds per byte of the rate), the
/// bucket starting with `tokens`.
pub open spec fn paced(tokens: int, capacity: int, bytes_per_sec: u64, events: Seq<BucketEvent>) -> bool
    decreases events.len(),
{
    if events.len() == 0 {
        true
    } else {
        let prefix = events.drop_last();
        paced(tokens, capacity, bytes_per_sec, prefix) && match events.last() {
            BucketEvent::Refill(_) => true,
            BucketEvent::Take(b) => owed_wait(
                replay_tokens(tokens, capacity, bytes_per_sec, prefix),
                b as int,
                bytes_per_sec,
                nanos_per_byte_for(bytes_per_sec) as u64,
            ) is None,
        }
    }
}

/// A send for which no wait is owed leaves a debt of at most `debt_bound`.
proof fn lemma_no_wait_bounds_debt(t: int, b: int, r: u64)
    requires
        r > 0,
        owed_wait(t, b, r, nanos_per_byte_for(r) as u64) is None,
        t >= -debt_bound(r),
    ensures
        t - b >= -debt_bound(r),
{
    if t < b {
        let s = b - t;
        let p = nanos_per_byte_for(r);
        if p > 0 {
            let k: int = 10_000;
            assert(s * p <= k);
            vstd::arithmetic::div_mod::lemma_fundamental_div_mod(k, p);
            assert(s <= k / p) by (nonlinear_arith)
                requires
                    s * p <= k,
                    k == p * (k / p) + k % p,
                    0 <= k % p < p,
                    p > 0,
            ;
        } else {
            let n = s * 1_000_000_000 + r - 1;
            let q = n / (r as int);
            vstd::arithmetic::div_mod::lemma_fundamental_div_mod(n, r as int);
            assert(q <= 10_000);
            assert(s * 1_000_000_000 <= 10_000 * r) by (nonlinear_arith)
                requires
                    n == (r as int) * q + n % (r as int),
                    0 <= n % (r as int) < r,
                    n == s * 1_000_000_000 + r - 1,
                    q <= 10_000,
                    r > 0,
            ;
            let m = r as int * 10_000;
            vstd::arithmetic::div_mod::lemma_fundamental_div_mod(m, 1_000_000_000);
            assert(s <= m / 1_000_000_000) by (nonlinear_arith)
                requires
                    s * 1_000_000_000 <= m,
                    m == 1_000_000_000 * (m / 1_000_000_000) + m % 1_000_000_000,
                    0 <= m % 1_000_000_000 < 1_000_000_000,
            ;
        }
    }
}

/// The rate limit a paced sender keeps: when every send waits as
/// `wait_nanos` asks, the bucket never owes more than `debt_bound`, so the
/// bytes sent over any run are at most the tokens held at the start, plus
/// the rate times the elapsed time, plus `debt_bound`, whatever the sizes
/// of the sends.  A zero rate sets no limit and is left out.
pub proof fn lemma_paced_rate_limit(tokens: int, capacity: int, bytes_per_sec: u64, events: Seq<BucketEvent>)
    requires
        bytes_per_sec > 0,
        -debt_bound(bytes_per_sec) <= tokens <= capacity,
        paced(tokens, capacity, bytes_per_sec, events),
    ensures
        -debt_bound(bytes_per_sec) <= replay_tokens(tokens, capacity, bytes_per_sec, events) <= capacity,
        taken_total(events) <= tokens + debt_bound(bytes_per_sec) + (elapsed_total(events)
            * bytes_per_sec) / 1_000_000,
    decreases events.len(),
{
    lemma_bucket_rate_limit(tokens, capacity, bytes_per_sec, events);
    if events.len() > 0 {
        let prefix = events.drop_last();
        lemma_paced_rate_limit(tokens, capacity, bytes_per_sec, prefix);
        let t = replay_tokens(tokens, capacity, bytes_per_sec, prefix);
        match events.last() {
            BucketEvent::Refill(e) => {
                assert(e as int * bytes_per_sec >= 0) by (nonlinear_arith);
            },
            BucketEvent::Take(b) => {
                lemma_no_wait_bounds_debt(t, b as int, bytes_per_sec);
            },
        }
    }
}

} // verus!
