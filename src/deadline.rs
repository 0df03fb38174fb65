//! Retry deadlines from a `Retry-After` header value.
//!
//! Time is counted in whole seconds since the Unix epoch.
use vstd::prelude::*;

verus! {

pub open spec fn is_digit(c: char) -> bool {
    '0' <= c && c <= '9'
}

pub open spec fn digit_value(c: char) -> nat {
    (c as u32 - '0' as u32) as nat
}

pub open spec fn all_digits(s: Seq<char>) -> bool {
    forall|i: int| 0 <= i < s.len() ==> is_digit(#[trigger] s[i])
}

/// The number that a string of decimal digits denotes.
pub open spec fn decimal_value(s: Seq<char>) -> nat
    decreases s.len(),
{
    if s.len() == 0 {
        0
    } else {
        decimal_value(s.drop_last()) * 10 + digit_value(s.last())
    }
}

/// The digits of a number of seconds: what follows an optional leading `+`.
pub open spec fn unsigned_digits(s: Seq<char>) -> Seq<char> {
    if s.len() > 0 && s[0] == '+' {
        s.drop_first()
    } else {
        s
    }
}

/// A count of seconds as `u64::from_str` reads it: an optional `+`, then one
/// or more ASCII digits whose value fits in 64 bits.
pub open spec fn seconds_of(s: Seq<char>) -> Option<u64> {
    let d = unsigned_digits(s);
    if d.len() > 0 && all_digits(d) && decimal_value(d) <= u64::MAX {
        Some(decimal_value(d) as u64)
    } else {
        None
    }
}

/// What `str::trim` leaves of a string.
pub uninterp spec fn trimmed(s: Seq<char>) -> Seq<char>;

/// The instant an HTTP-date denotes, in seconds since the epoch.
pub uninterp spec fn http_date_secs(s: Seq<char>) -> Option<u64>;

pub open spec fn add_clamped(a: u64, b: u64) -> u64 {
    if a + b <= u64::MAX {
        (a + b) as u64
    } else {
        u64::MAX
    }
}

/// The deadline a `Retry-After` value gives at time `now`: a count of seconds
/// from now, else an HTTP-date, where a date in the past means now.
pub open spec fn header_deadline(val: Seq<char>, now: u64) -> Option<u64> {
    match seconds_of(trimmed(val)) {
        Some(n) => Some(add_clamped(now, n)),
        None => match http_date_secs(val) {
            Some(t) => Some(if t > now { t } else { now }),
            None => None,
        },
    }
}

/// The deadline a throttled call waits for: the header's, or `default_delay`
/// seconds from now where the header is missing or unreadable.
pub open spec fn retry_deadline_of(retry_after: Option<Seq<char>>, now: u64, default_delay: u64) -> u64 {
    match retry_after {
        Some(v) => match header_deadline(v, now) {
            Some(d) => d,
            None => add_clamped(now, default_delay),
        },
        None => add_clamped(now, default_delay),
    }
}

/// Relies on `str::trim`: the string without leading and trailing whitespace.
#[verifier::external_body]
fn trim_whitespace(s: &str) -> (r: &str)
    ensures
        r@ == trimmed(s@),
{
    s.trim()
}

/// Relies on `httpdate::parse_http_date`, which reads the three HTTP-date
/// forms (IMF-fixdate among them) of years 1970 to 9999, never before the epoch.
#[verifier::external_body]
fn parse_http_date_secs(s: &str) -> (r: Option<u64>)
    ensures
        r == http_date_secs(s@),
{
    httpdate::parse_http_date(s)
        .ok()
        .and_then(|t| t.duration_since(std::time::UNIX_EPOCH).ok())
        .map(|d| d.as_secs())
}

proof fn lemma_prefix_value_grows(s: Seq<char>, j: int, k: int)
    requires
        0 <= j <= k <= s.len(),
    ensures
        decimal_value(s.subrange(0, j)) <= decimal_value(s.subrange(0, k)),
    decreases k - j,
{
    if j < k {
        lemma_prefix_value_grows(s, j, k - 1);
        assert(s.subrange(0, k).drop_last() =~= s.subrange(0, k - 1));
    }
}

/// Reads a count of seconds the way `u64::from_str` does.
pub fn parse_seconds(s: &str) -> (r: Option<u64>)
    ensures
        r == seconds_of(s@),
{
    let n = s.unicode_len();
    let mut start: usize = 0;
    if n > 0 && s.get_char(0) == '+' {
        start = 1;
    }
    let ghost d = unsigned_digits(s@);
    assert(d =~= s@.subrange(start as int, n as int));
    if start == n {
        return None;
    }
    let mut value: u64 = 0;
    let mut i: usize = start;
    while i < n
        invariant
            start <= i <= n,
            n == s@.len(),
            d == unsigned_digits(s@),
            d =~= s@.subrange(start as int, n as int),
            all_digits(d.subrange(0, i - start)),
            value as nat == decimal_value(d.subrange(0, i - start)),
        decreases n - i,
    {
        let c = s.get_char(i);
        if !('0' <= c && c <= '9') {
            assert(d[i - start] == c);
            assert(!is_digit(d[i - start]));
            return None;
        }
        let ghost pre = d.subrange(0, i - start);
        let ghost next = d.subrange(0, i - start + 1);
        assert(next.drop_last() =~= pre);
        assert(next.last() == c);
        let dv: u64 = (c as u32 - '0' as u32) as u64;
        assert(decimal_value(next) == value * 10 + dv);
        let times = value.checked_mul(10);
        match times {
            Some(t) => match t.checked_add(dv) {
                Some(v) => {
                    value = v;
                },
                None => {
                    proof {
                        lemma_prefix_value_grows(d, i - start + 1, d.len() as int);
                        assert(d.subrange(0, d.len() as int) =~= d);
                    }
                    return None;
                },
            },
            None => {
                proof {
                    lemma_prefix_value_grows(d, i - start + 1, d.len() as int);
                    assert(d.subrange(0, d.len() as int) =~= d);
                }
                return None;
            },
        }
        i = i + 1;
    }
    assert(d.subrange(0, i - start) =~= d);
    Some(value)
}

/// The deadline that a `Retry-After` header value sets, read at time `now`:
/// first as whole seconds from now (the deadline saturates at the largest
/// instant), then as an HTTP-date, where a date already past gives `now`;
/// `None` where it is neither.
pub fn get_http_header_deadline(val: &str, now: u64) -> (r: Option<u64>)
    ensures
        r == header_deadline(val@, now),
{
    match parse_seconds(trim_whitespace(val)) {
        Some(n) => Some(now.saturating_add(n)),
        None => match parse_http_date_secs(val) {
            Some(t) => Some(if t > now { t } else { now }),
            None => None,
        },
    }
}

/// The deadline until which a throttled call holds its slot: the one its
/// `Retry-After` value sets, else `default_delay` seconds from `now`.
pub fn retry_deadline(retry_after: Option<&str>, now: u64, default_delay: u64) -> (r: u64)
    ensures
        r == retry_deadline_of(
            match retry_after {
                Some(v) => Some(v@),
                None => None,
            },
            now,
            default_delay,
        ),
{
    let hint = match retry_after {
        Some(v) => get_http_header_deadline(v, now),
        None => None,
    };
    match hint {
        Some(d) => d,
        None => now.saturating_add(default_delay),
    }
}

} // verus!
