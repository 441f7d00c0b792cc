//! Parsing of bandwidth strings with an optional K/M/G suffix, in bits per
//! second: "100M" is 100 Mbps, "1G" is 1 Gbps, "500K" is 500 Kbps.
use vstd::prelude::*;

verus! {

/// Why a bandwidth string was refused.
#[derive(Debug)]
pub enum BandwidthError {
    /// Nothing but whitespace was given
    Empty,
    /// The text before the unit suffix is not a decimal `u64`; it is carried
    /// here
    InvalidNumber(String),
}

/// `char::is_whitespace`: the Unicode `White_Space` property.
pub open spec fn is_whitespace(c: char) -> bool {
    ||| c == '\t'
    ||| c == '\n'
    ||| c == '\u{0B}'
    ||| c == '\u{0C}'
    ||| c == '\r'
    ||| c == ' '
    ||| c == '\u{85}'
    ||| c == '\u{A0}'
    ||| c == '\u{1680}'
    ||| ('\u{2000}' <= c && c <= '\u{200A}')
    ||| c == '\u{2028}'
    ||| c == '\u{2029}'
    ||| c == '\u{202F}'
    ||| c == '\u{205F}'
    ||| c == '\u{3000}'
}

fn char_is_whitespace(c: char) -> (b: bool)
    ensures
        b == is_whitespace(c),
{
    c == '\t' || c == '\n' || c == '\u{0B}' || c == '\u{0C}' || c == '\r' || c == ' ' || c
        == '\u{85}' || c == '\u{A0}' || c == '\u{1680}' || ('\u{2000}' <= c && c <= '\u{200A}')
        || c == '\u{2028}' || c == '\u{2029}' || c == '\u{202F}' || c == '\u{205F}' || c
        == '\u{3000}'
}

/// `s` without its leading whitespace.
pub open spec fn trim_start(s: Seq<char>) -> Seq<char>
    decreases s.len(),
{
    if s.len() > 0 && is_whitespace(s[0]) {
        trim_start(s.drop_first())
    } else {
        s
    }
}

/// `s` without its trailing whitespace.
pub open spec fn trim_end(s: Seq<char>) -> Seq<char>
    decreases s.len(),
{
    if s.len() > 0 && is_whitespace(s.last()) {
        trim_end(s.drop_last())
    } else {
        s
    }
}

/// `s` without leading and trailing whitespace (`str::trim`).
pub open spec fn trim(s: Seq<char>) -> Seq<char> {
    trim_end(trim_start(s))
}

/// The multiplier a unit suffix stands for.
pub open spec fn unit_multiplier(c: char) -> Option<u64> {
    if c == 'G' || c == 'g' {
        Some(1_000_000_000u64)
    } else if c == 'M' || c == 'm' {
        Some(1_000_000u64)
    } else if c == 'K' || c == 'k' {
        Some(1_000u64)
    } else {
        None
    }
}

/// The number text and the multiplier of a non-empty trimmed bandwidth string.
pub open spec fn split_unit(t: Seq<char>) -> (Seq<char>, u64) {
    match unit_multiplier(t.last()) {
        Some(m) => (t.drop_last(), m),
        None => (t, 1u64),
    }
}

pub open spec fn is_digit(c: char) -> bool {
    '0' <= c && c <= '9'
}

pub open spec fn all_digits(d: Seq<char>) -> bool {
    forall|i: int| 0 <= i < d.len() ==> is_digit(#[trigger] d[i])
}

/// The value of a string of decimal digits.
pub open spec fn decimal_value(d: Seq<char>) -> nat
    decreases d.len(),
{
    if d.len() == 0 {
        0
    } else {
        decimal_value(d.drop_last()) * 10 + ((d.last() as nat) - ('0' as nat)) as nat
    }
}

/// `str::parse::<u64>`: an optional `+`, then at least one decimal digit and
/// nothing else, with a value that fits in a `u64`.
pub open spec fn parse_u64(s: Seq<char>) -> Option<u64> {
    let d = if s.len() > 0 && s[0] == '+' {
        s.drop_first()
    } else {
        s
    };
    if d.len() > 0 && all_digits(d) && decimal_value(d) <= u64::MAX {
        Some(decimal_value(d) as u64)
    } else {
        None
    }
}

/// The number and multiplier a bandwidth string stands for; `Err(None)` when
/// it is empty after trimming, `Err(Some(t))` when the number text `t` does
/// not parse.
pub open spec fn bandwidth_parts_spec(s: Seq<char>) -> Result<(u64, u64), Option<Seq<char>>> {
    let t = trim(s);
    if t.len() == 0 {
        Err(None)
    } else {
        let (n, m) = split_unit(t);
        match parse_u64(n) {
            Some(v) => Ok((v, m)),
            None => Err(Some(n)),
        }
    }
}

/// The bandwidth in bits per second that `s` stands for, as `int`.
pub open spec fn bandwidth_value(s: Seq<char>) -> int {
    match bandwidth_parts_spec(s) {
        Ok((n, m)) => n * m,
        Err(_) => 0,
    }
}

proof fn lemma_decimal_step(d: Seq<char>, k: int)
    requires
        0 <= k < d.len(),
    ensures
        decimal_value(d.subrange(0, k + 1)) == decimal_value(d.subrange(0, k)) * 10 + ((d[k] as nat)
            - ('0' as nat)) as nat,
{
    assert(d.subrange(0, k + 1).drop_last() =~= d.subrange(0, k));
}

proof fn lemma_decimal_prefix_le(d: Seq<char>, k: int)
    requires
        0 <= k <= d.len(),
        all_digits(d),
    ensures
        decimal_value(d.subrange(0, k)) <= decimal_value(d),
    decreases d.len() - k,
{
    if k < d.len() {
        lemma_decimal_step(d, k);
        lemma_decimal_prefix_le(d, k + 1);
        assert(is_digit(d[k]));
    } else {
        assert(d.subrange(0, k) =~= d);
    }
}

proof fn lemma_trim_start_step(s: Seq<char>, i: int)
    requires
        0 <= i < s.len(),
        is_whitespace(s[i]),
    ensures
        trim_start(s.subrange(i, s.len() as int)) == trim_start(s.subrange(i + 1, s.len() as int)),
{
    assert(s.subrange(i, s.len() as int).drop_first() =~= s.subrange(i + 1, s.len() as int));
}

proof fn lemma_trim_end_step(s: Seq<char>, i: int, j: int)
    requires
        0 <= i < j <= s.len(),
        is_whitespace(s[j - 1]),
    ensures
        trim_end(s.subrange(i, j)) == trim_end(s.subrange(i, j - 1)),
{
    assert(s.subrange(i, j).drop_last() =~= s.subrange(i, j - 1));
}

/// Parses the decimal `u64` in `s[from..to]` (characters), as
/// `str::parse::<u64>` does.
fn parse_u64_range(s: &str, from: usize, to: usize) -> (r: Option<u64>)
    requires
        from <= to <= s@.len(),
    ensures
        r == parse_u64(s@.subrange(from as int, to as int)),
{
    let ghost t = s@.subrange(from as int, to as int);
    let mut k = from;
    if k < to && s.get_char(k) == '+' {
        k = k + 1;
    }
    let ghost d = if t.len() > 0 && t[0] == '+' {
        t.drop_first()
    } else {
        t
    };
    assert(d =~= s@.subrange(k as int, to as int));
    if k == to {
        return None;
    }
    let start = k;
    let mut value: u64 = 0;
    while k < to
        invariant
            start <= k <= to,
            start < to,
            to <= s@.len(),
            t == s@.subrange(from as int, to as int),
            d == (if t.len() > 0 && t[0] == '+' {
                t.drop_first()
            } else {
                t
            }),
            d == s@.subrange(start as int, to as int),
            all_digits(d.subrange(0, k - start)),
            value == decimal_value(d.subrange(0, k - start)),
        decreases to - k,
    {
        let c = s.get_char(k);
        proof {
            lemma_decimal_step(d, k - start);
        }
        assert(d[k - start] == c);
        if !('0' <= c && c <= '9') {
            assert(!is_digit(d[k - start]));
            assert(!all_digits(d));
            return None;
        }
        let digit = (c as u32 - '0' as u32) as u64;
        if value > (u64::MAX - digit) / 10 {
            proof {
                assert forall|i: int| 0 <= i < k - start + 1 implies is_digit(
                    #[trigger] d.subrange(0, k - start + 1)[i],
                ) by {
                    if i < k - start {
                        assert(d.subrange(0, k - start + 1)[i] == d.subrange(0, k - start)[i]);
                    }
                }
                assert(value * 10 + digit > u64::MAX) by (nonlinear_arith)
                    requires
                        value > (u64::MAX - digit) / 10,
                        digit <= 9,
                ;
                if all_digits(d) {
                    lemma_decimal_prefix_le(d, k - start + 1);
                }
            }
            return None;
        }
        value = value * 10 + digit;
        k = k + 1;
        proof {
            assert forall|i: int| 0 <= i < k - start implies is_digit(
                #[trigger] d.subrange(0, k - start)[i],
            ) by {
                if i < k - start - 1 {
                    assert(d.subrange(0, k - start)[i] == d.subrange(0, k - start - 1)[i]);
                }
            }
        }
    }
    assert(d.subrange(0, to - start) =~= d);
    Some(value)
}

/// Splits a bandwidth string into its number and its unit multiplier:
/// surrounding whitespace is trimmed, a final `K`/`k`, `M`/`m` or `G`/`g`
/// stands for 1 000, 1 000 000 or 1 000 000 000, and the rest must parse as
/// a `u64`.
pub fn bandwidth_parts(s: &str) -> (r: Result<(u64, u64), BandwidthError>)
    ensures
        match r {
            Ok(p) => bandwidth_parts_spec(s@) == Ok::<(u64, u64), Option<Seq<char>>>(p),
            Err(BandwidthError::Empty) => bandwidth_parts_spec(s@) == Err::<
                (u64, u64),
                Option<Seq<char>>,
            >(None),
            Err(BandwidthError::InvalidNumber(t)) => bandwidth_parts_spec(s@) == Err::<
                (u64, u64),
                Option<Seq<char>>,
            >(Some(t@)),
        },
{
    let n = s.unicode_len();
    let mut i: usize = 0;
    assert(s@.subrange(0, n as int) =~= s@);
    while i < n && char_is_whitespace(s.get_char(i))
        invariant
            i <= n,
            n == s@.len(),
            trim_start(s@) == trim_start(s@.subrange(i as int, n as int)),
        decreases n - i,
    {
        proof {
            lemma_trim_start_step(s@, i as int);
        }
        i = i + 1;
    }
    proof {
        assert(s@.subrange(0, n as int) =~= s@);
        if i < n {
            assert(s@.subrange(i as int, n as int)[0] == s@[i as int]);
        }
    }
    let mut j: usize = n;
    while j > i && char_is_whitespace(s.get_char(j - 1))
        invariant
            i <= j <= n,
            n == s@.len(),
            trim_start(s@) == s@.subrange(i as int, n as int),
            trim(s@) == trim_end(s@.subrange(i as int, j as int)),
        decreases j - i,
    {
        proof {
            lemma_trim_end_step(s@, i as int, j as int);
        }
        j = j - 1;
    }
    let ghost t = s@.subrange(i as int, j as int);
    proof {
        assert(trim(s@) == t);
    }
    if j == i {
        return Err(BandwidthError::Empty);
    }
    let last = s.get_char(j - 1);
    assert(last == t.last());
    let (end, multiplier) = if last == 'G' || last == 'g' {
        (j - 1, 1_000_000_000u64)
    } else if last == 'M' || last == 'm' {
        (j - 1, 1_000_000u64)
    } else if last == 'K' || last == 'k' {
        (j - 1, 1_000u64)
    } else {
        (j, 1u64)
    };
    assert(split_unit(t).0 =~= s@.subrange(i as int, end as int));
    match parse_u64_range(s, i, end) {
        Some(v) => Ok((v, multiplier)),
        None => {
            let text = s.substring_char(i, end);
            Err(BandwidthError::InvalidNumber(String::from_str(text)))
        },
    }
}

/// Parses a bandwidth string in bits per second with an optional K/M/G
/// suffix.  Multiplying out may not overflow a `u64`.
pub fn parse_bandwidth(s: &str) -> (r: Result<u64, BandwidthError>)
    requires
        bandwidth_value(s@) <= u64::MAX,
    ensures
        match r {
            Ok(v) => bandwidth_parts_spec(s@) is Ok && v == bandwidth_value(s@),
            Err(BandwidthError::Empty) => bandwidth_parts_spec(s@) == Err::<
                (u64, u64),
                Option<Seq<char>>,
            >(None),
            Err(BandwidthError::InvalidNumber(t)) => bandwidth_parts_spec(s@) == Err::<
                (u64, u64),
                Option<Seq<char>>,
            >(Some(t@)),
        },
{
    match bandwidth_parts(s) {
        Ok((number, multiplier)) => Ok(number * multiplier),
        Err(e) => Err(e),
    }
}

} // verus!
