//! Points in time.

use vstd::prelude::*;

verus! {

pub const NANOS_PER_SECOND: i128 = 1_000_000_000;

pub const NANOS_PER_MILLISECOND: i128 = 1_000_000;

/// A point in time together with the offset from UTC in which it is written.
#[derive(Clone, Copy, Debug, PartialEq, Eq, Structural)]
pub struct Timestamp {
    pub unix_seconds: i64,
    pub nanosecond: u32,
    pub offset_seconds: i32,
}

/// Division that rounds toward zero.
pub open spec fn truncated_div(n: int, d: int) -> int {
    if n >= 0 {
        n / d
    } else {
        -((-n) / d)
    }
}

/// What `time::OffsetDateTime::parse` makes of a text in RFC 3339 form: the Unix
/// second, the nanosecond within it and the offset in seconds.
pub uninterp spec fn rfc3339_parsed(text: Seq<char>) -> Option<(i64, u32, i32)>;

/// What `time::OffsetDateTime::format` writes in RFC 3339 form for a Unix second, a
/// nanosecond within it and an offset in seconds.
pub uninterp spec fn rfc3339_formatted(unix_seconds: i64, nanosecond: u32, offset_seconds: i32) -> Option<
    Seq<char>,
>;

/// Calls `time::OffsetDateTime::parse` with the RFC 3339 format. The contract only
/// names the outcome, which depends on the text alone.
#[verifier::external_body]
fn parse_rfc3339(text: &str) -> (parts: Option<(i64, u32, i32)>)
    ensures
        parts == rfc3339_parsed(text@),
{
    match time::OffsetDateTime::parse(text, &time::format_description::well_known::Rfc3339) {
        Ok(value) => Some((value.unix_timestamp(), value.nanosecond(), value.offset().whole_seconds())),
        Err(_) => None,
    }
}

/// Calls `time::OffsetDateTime::format` with the RFC 3339 format. There is no
/// outcome where the three parts make no date of that crate, or where the format
/// cannot write it. The contract names the outcome, and states that the text reads back
/// as the same three parts.
#[verifier::external_body]
fn format_rfc3339(unix_seconds: i64, nanosecond: u32, offset_seconds: i32) -> (text: Option<String>)
    ensures
        text is Some <==> rfc3339_formatted(unix_seconds, nanosecond, offset_seconds) is Some,
        text is Some ==> text->0@ == rfc3339_formatted(unix_seconds, nanosecond, offset_seconds)->0,
        text is Some ==> rfc3339_parsed(text->0@) == Some((unix_seconds, nanosecond, offset_seconds)),
{
    let offset = time::UtcOffset::from_whole_seconds(offset_seconds).ok()?;
    let second = time::OffsetDateTime::from_unix_timestamp(unix_seconds).ok()?;
    let value = second.replace_nanosecond(nanosecond).ok()?.checked_to_offset(offset)?;
    value.format(&time::format_description::well_known::Rfc3339).ok()
}

impl Timestamp {
    pub fn unix_epoch() -> (t: Timestamp)
        ensures
            t == (Timestamp { unix_seconds: 0, nanosecond: 0, offset_seconds: 0 }),
    {
        Timestamp { unix_seconds: 0, nanosecond: 0, offset_seconds: 0 }
    }

    /// Nanoseconds since the Unix epoch.
    pub open spec fn instant(self) -> int {
        self.unix_seconds * 1_000_000_000 + self.nanosecond
    }

    pub fn instant_nanos(&self) -> (nanos: i128)
        ensures
            nanos == self.instant(),
            -0x1_0000_0000_0000_0000_0000_0000 < nanos < 0x1_0000_0000_0000_0000_0000_0000,
    {
        (self.unix_seconds as i128) * NANOS_PER_SECOND + self.nanosecond as i128
    }

    /// Whether `self` lies strictly before `other`.
    pub fn is_before(&self, other: &Timestamp) -> (r: bool)
        ensures
            r == (self.instant() < other.instant()),
    {
        self.instant_nanos() < other.instant_nanos()
    }

    /// The time that lies `seconds` later, at the same offset, where it can be held.
    pub fn plus_seconds(&self, seconds: i64) -> (r: Option<Timestamp>)
        ensures
            r is Some <==> i64::MIN <= self.unix_seconds + seconds <= i64::MAX,
            r is Some ==> r->0.unix_seconds == self.unix_seconds + seconds && r->0.nanosecond
                == self.nanosecond && r->0.offset_seconds == self.offset_seconds,
    {
        match self.unix_seconds.checked_add(seconds) {
            Some(unix_seconds) => Some(
                Timestamp {
                    unix_seconds,
                    nanosecond: self.nanosecond,
                    offset_seconds: self.offset_seconds,
                },
            ),
            None => None,
        }
    }

    /// What the RFC 3339 text says, if it says a time at all.
    pub open spec fn read_as(text: Seq<char>) -> Option<Timestamp> {
        match rfc3339_parsed(text) {
            Some((unix_seconds, nanosecond, offset_seconds)) => Some(
                Timestamp { unix_seconds, nanosecond, offset_seconds },
            ),
            None => None,
        }
    }

    pub fn parse(text: &str) -> (r: Option<Timestamp>)
        ensures
            r == Timestamp::read_as(text@),
    {
        match parse_rfc3339(text) {
            Some((unix_seconds, nanosecond, offset_seconds)) => Some(
                Timestamp { unix_seconds, nanosecond, offset_seconds },
            ),
            None => None,
        }
    }

    /// The RFC 3339 text of this time, if it has one.
    pub open spec fn written(self) -> Option<Seq<char>> {
        rfc3339_formatted(self.unix_seconds, self.nanosecond, self.offset_seconds)
    }

    pub fn format(&self) -> (r: Option<String>)
        ensures
            r is Some <==> self.written() is Some,
            r is Some ==> r->0@ == self.written()->0,
            r is Some ==> Timestamp::read_as(r->0@) == Some(*self),
    {
        format_rfc3339(self.unix_seconds, self.nanosecond, self.offset_seconds)
    }
}

/// The whole seconds from `earlier` to `later`, rounded toward zero.
pub open spec fn seconds_from(later: Timestamp, earlier: Timestamp) -> int {
    truncated_div(later.instant() - earlier.instant(), 1_000_000_000)
}

/// The whole milliseconds from `earlier` to `later`, rounded toward zero.
pub open spec fn milliseconds_from(later: Timestamp, earlier: Timestamp) -> int {
    truncated_div(later.instant() - earlier.instant(), 1_000_000)
}

fn quotient(n: i128, d: i128) -> (q: i128)
    requires
        d > 0,
        n > i128::MIN,
    ensures
        q == truncated_div(n as int, d as int),
        n >= 0 ==> 0 <= q <= n,
        n < 0 ==> n <= q <= 0,
{
    if n >= 0 {
        proof {
            assert(0 <= n / d <= n) by (nonlinear_arith)
                requires
                    n >= 0,
                    d > 0,
            ;
        }
        n / d
    } else {
        let m: i128 = -n;
        proof {
            assert(0 <= m / d <= m) by (nonlinear_arith)
                requires
                    m >= 0,
                    d > 0,
            ;
        }
        -(m / d)
    }
}

pub fn seconds_between(later: &Timestamp, earlier: &Timestamp) -> (seconds: i128)
    ensures
        seconds == seconds_from(*later, *earlier),
{
    quotient(later.instant_nanos() - earlier.instant_nanos(), NANOS_PER_SECOND)
}

pub fn milliseconds_between(later: &Timestamp, earlier: &Timestamp) -> (milliseconds: i128)
    ensures
        milliseconds == milliseconds_from(*later, *earlier),
{
    quotient(later.instant_nanos() - earlier.instant_nanos(), NANOS_PER_MILLISECOND)
}

} // verus!
