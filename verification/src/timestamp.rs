//! Instants in time.
//!
//! The gateway keeps every instant as milliseconds since the Unix epoch;
//! the buffer record and the wire JSON carry it as an RFC 3339 string.
//! The rendering is the chrono crate's; its result is given a name here
//! and the renderer and parser are held to inverting each other.

use vstd::prelude::*;

verus! {

/// The largest instant the gateway renders: the last millisecond of the
/// year 9999, safely inside chrono's range.
pub const MAX_TIMESTAMP_MS: i64 = 253402300799999;

/// The RFC 3339 rendering of an instant, as chrono's `to_rfc3339`
/// produces it for a UTC value of millisecond precision.
pub uninterp spec fn rfc3339_of(t_ms: i64) -> Seq<char>;

/// The characters RFC 3339 renderings are made of: digits and the
/// punctuation `- : T . + Z`.
pub open spec fn is_rfc3339_char(c: char) -> bool {
    crate::digits::is_digit(c) || c == '-' || c == ':' || c == 'T' || c == '.' || c == '+'
        || c == 'Z'
}

pub open spec fn rfc3339_chars_ok(s: Seq<char>) -> bool {
    forall|i: int| 0 <= i < s.len() ==> is_rfc3339_char(#[trigger] s[i])
}

/// Relies on chrono: `DateTime::from_timestamp_millis` is `Some` for
/// every in-range value, and `DateTime::<Utc>::to_rfc3339` renders it as
/// an RFC 3339 string built from digits and the punctuation `- : T . +`.
#[verifier::external_body]
pub fn format_rfc3339(t_ms: i64) -> (r: String)
    requires
        0 <= t_ms <= MAX_TIMESTAMP_MS,
    ensures
        r@ == rfc3339_of(t_ms),
        rfc3339_chars_ok(r@),
        r@.len() > 0,
{
    match chrono::DateTime::from_timestamp_millis(t_ms) {
        Some(dt) => dt.to_rfc3339(),
        None => String::new(),
    }
}

/// Relies on chrono: `DateTime::parse_from_rfc3339` parses every string
/// `to_rfc3339` produces, back to the instant that was rendered, and
/// `timestamp_millis` reads that instant in milliseconds.
#[verifier::external_body]
pub fn parse_rfc3339(s: &str) -> (r: Option<i64>)
    ensures
        forall|t: i64| 0 <= t <= MAX_TIMESTAMP_MS && s@ == rfc3339_of(t) ==> r == Some(t),
{
    match chrono::DateTime::parse_from_rfc3339(s) {
        Ok(dt) => Some(dt.with_timezone(&chrono::Utc).timestamp_millis()),
        Err(_) => None,
    }
}

/// Relies on chrono: `Utc::now` reads the system clock.  Nothing is
/// promised of the value.
#[verifier::external_body]
pub fn now_millis() -> i64 {
    chrono::Utc::now().timestamp_millis()
}

/// Forces an instant into the range the gateway renders; in-range
/// instants pass through unchanged.
pub fn clamp_timestamp(t: i64) -> (r: i64)
    ensures
        0 <= r <= MAX_TIMESTAMP_MS,
        0 <= t <= MAX_TIMESTAMP_MS ==> r == t,
{
    if t < 0 {
        0
    } else if t > MAX_TIMESTAMP_MS {
        MAX_TIMESTAMP_MS
    } else {
        t
    }
}

/// The current instant, clamped into the renderable range.
pub fn current_timestamp() -> (r: i64)
    ensures
        0 <= r <= MAX_TIMESTAMP_MS,
{
    clamp_timestamp(now_millis())
}

} // verus!
