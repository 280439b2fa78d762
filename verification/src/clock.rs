//! Instants as nanoseconds since the Unix epoch, and their RFC 3339 text.
use vstd::prelude::*;

verus! {

pub const NANOS_PER_SEC: i128 = 1_000_000_000;

pub const NANOS_PER_DAY: i128 = 86_400_000_000_000;

/// The (seconds, nanoseconds) pair that chrono parses from RFC 3339 text,
/// as `DateTime::parse_from_rfc3339` followed by `timestamp` and
/// `timestamp_subsec_nanos`; `None` when the text does not parse.
pub uninterp spec fn rfc3339_parts(text: Seq<char>) -> Option<(i64, u32)>;

/// The RFC 3339 text that chrono writes for the UTC instant given as
/// (seconds, nanoseconds): `DateTime::<Utc>::from_timestamp` followed by
/// `to_rfc3339`; `None` when chrono cannot represent that instant.
pub uninterp spec fn rfc3339_text(secs: i64, nanos: u32) -> Option<Seq<char>>;

/// The instant, in nanoseconds since the epoch, of a (seconds, nanoseconds)
/// pair.
pub open spec fn instant_of(parts: (i64, u32)) -> int {
    parts.0 * (NANOS_PER_SEC as int) + parts.1
}

/// The instant that RFC 3339 text denotes, if it parses.
pub open spec fn parse_instant(text: Seq<char>) -> Option<int> {
    match rfc3339_parts(text) {
        Some(p) => Some(instant_of(p)),
        None => None,
    }
}

/// chrono's `DateTime::parse_from_rfc3339`, reduced to the instant's
/// seconds and nanoseconds. The contract names the result and claims
/// nothing more of it.
#[verifier::external_body]
fn rfc3339_parts_of(text: &str) -> (r: Option<(i64, u32)>)
    ensures
        r == rfc3339_parts(text@),
{
    match chrono::DateTime::parse_from_rfc3339(text) {
        Ok(d) => Some((d.timestamp(), d.timestamp_subsec_nanos())),
        Err(_) => None,
    }
}

/// chrono's `DateTime::<Utc>::from_timestamp` rendered with `to_rfc3339`.
/// The contract names the result and claims nothing more of it.
#[verifier::external_body]
fn rfc3339_text_of(secs: i64, nanos: u32) -> (r: Option<String>)
    ensures
        match r {
            Some(t) => rfc3339_text(secs, nanos) == Some(t@),
            None => rfc3339_text(secs, nanos) is None,
        },
{
    match chrono::DateTime::<chrono::Utc>::from_timestamp(secs, nanos) {
        Some(d) => Some(d.to_rfc3339()),
        None => None,
    }
}

/// The instant that RFC 3339 text denotes, in nanoseconds since the epoch.
pub fn parse_rfc3339(text: &str) -> (r: Option<i128>)
    ensures
        match r {
            Some(n) => parse_instant(text@) == Some(n as int),
            None => parse_instant(text@) is None,
        },
{
    match rfc3339_parts_of(text) {
        Some((secs, nanos)) => Some(secs as i128 * NANOS_PER_SEC + nanos as i128),
        None => None,
    }
}

/// The (seconds, nanoseconds) pair of an instant, the nanoseconds below one
/// second.
pub open spec fn parts_of(instant: int) -> (int, int) {
    (instant / (NANOS_PER_SEC as int), instant % (NANOS_PER_SEC as int))
}

/// The RFC 3339 text of an instant, if chrono can represent it.
pub open spec fn instant_text(instant: int) -> Option<Seq<char>> {
    let p = parts_of(instant);
    if i64::MIN <= p.0 <= i64::MAX {
        rfc3339_text(p.0 as i64, p.1 as u32)
    } else {
        None
    }
}

/// Renders an instant as RFC 3339 text, if chrono can represent it.
pub fn format_rfc3339(instant: i128) -> (r: Option<String>)
    ensures
        match r {
            Some(t) => instant_text(instant as int) == Some(t@),
            None => instant_text(instant as int) is None,
        },
{
    let secs = instant / NANOS_PER_SEC - if instant % NANOS_PER_SEC < 0 { 1 } else { 0 };
    let nanos = instant % NANOS_PER_SEC + if instant % NANOS_PER_SEC < 0 {
        NANOS_PER_SEC
    } else {
        0
    };
    assert(secs == parts_of(instant as int).0 && nanos == parts_of(instant as int).1);
    if secs < i64::MIN as i128 || secs > i64::MAX as i128 {
        return None;
    }
    rfc3339_text_of(secs as i64, nanos as u32)
}


/// The RFC 3339 text with milliseconds and a `Z` suffix that chrono writes
/// for the UTC instant given as (seconds, nanoseconds):
/// `to_rfc3339_opts(SecondsFormat::Millis, true)`; `None` when chrono cannot
/// represent that instant.
pub uninterp spec fn rfc3339_millis_text(secs: i64, nanos: u32) -> Option<Seq<char>>;

/// chrono's `DateTime::<Utc>::from_timestamp` rendered with
/// `to_rfc3339_opts(SecondsFormat::Millis, true)`.
#[verifier::external_body]
fn rfc3339_millis_text_of(secs: i64, nanos: u32) -> (r: Option<String>)
    ensures
        match r {
            Some(t) => rfc3339_millis_text(secs, nanos) == Some(t@),
            None => rfc3339_millis_text(secs, nanos) is None,
        },
{
    match chrono::DateTime::<chrono::Utc>::from_timestamp(secs, nanos) {
        Some(d) => Some(d.to_rfc3339_opts(chrono::SecondsFormat::Millis, true)),
        None => None,
    }
}

/// The millisecond RFC 3339 text of an instant, if chrono can represent it.
pub open spec fn instant_millis_text(instant: int) -> Option<Seq<char>> {
    let p = parts_of(instant);
    if i64::MIN <= p.0 <= i64::MAX {
        rfc3339_millis_text(p.0 as i64, p.1 as u32)
    } else {
        None
    }
}

/// Renders an instant as RFC 3339 text with milliseconds and `Z`.
pub fn format_rfc3339_millis(instant: i128) -> (r: Option<String>)
    ensures
        match r {
            Some(t) => instant_millis_text(instant as int) == Some(t@),
            None => instant_millis_text(instant as int) is None,
        },
{
    let secs = instant / NANOS_PER_SEC - if instant % NANOS_PER_SEC < 0 { 1 } else { 0 };
    let nanos = instant % NANOS_PER_SEC + if instant % NANOS_PER_SEC < 0 {
        NANOS_PER_SEC
    } else {
        0
    };
    assert(secs == parts_of(instant as int).0 && nanos == parts_of(instant as int).1);
    if secs < i64::MIN as i128 || secs > i64::MAX as i128 {
        return None;
    }
    rfc3339_millis_text_of(secs as i64, nanos as u32)
}

} // verus!
