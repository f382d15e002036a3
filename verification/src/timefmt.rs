//! Calendar text, handled through the chrono crate: RFC 3339 timestamps are
//! parsed and rendered by chrono, and the library's contracts speak of the
//! named results.

use vstd::prelude::*;

verus! {

/// The instant, in whole seconds since the UNIX epoch, denoted by the bytes
/// `b` read as an RFC 3339 date-and-time string; `None` where `b` is not
/// valid UTF-8 or not a valid RFC 3339 date-and-time.
pub uninterp spec fn rfc3339_instant(b: Seq<u8>) -> Option<i64>;

/// The RFC 3339 rendering of the instant `secs` seconds since the UNIX epoch,
/// in UTC; `None` where the instant is outside the calendar's range.
pub uninterp spec fn rfc3339_rendering(secs: i64) -> Option<Seq<char>>;

/// Relies on chrono::DateTime::parse_from_rfc3339, which parses all valid
/// RFC 3339 date-and-time strings; str::from_utf8 views the bytes as text,
/// and DateTime::timestamp truncates the parsed instant to whole seconds.
/// The outcome depends on the bytes alone.
#[verifier::external_body]
pub fn parse_rfc3339_seconds(b: &[u8]) -> (r: Option<i64>)
    ensures
        r == rfc3339_instant(b@),
{
    let text = match core::str::from_utf8(b) {
        Ok(text) => text,
        Err(_) => return None,
    };
    match chrono::DateTime::parse_from_rfc3339(text) {
        Ok(parsed) => Some(parsed.timestamp()),
        Err(_) => None,
    }
}

/// Relies on chrono::DateTime::to_rfc3339, which renders a date and time as
/// an RFC 3339 string; chrono::DateTime::<Utc>::from_timestamp names the
/// instant and returns `None` for an out-of-range number of seconds. The
/// rendering depends on the seconds alone.
#[verifier::external_body]
pub fn format_rfc3339_seconds(secs: i64) -> (r: Option<String>)
    ensures
        match r {
            Some(text) => rfc3339_rendering(secs) == Some(text@),
            None => rfc3339_rendering(secs) is None,
        },
{
    chrono::DateTime::<chrono::Utc>::from_timestamp(secs, 0).map(|instant| instant.to_rfc3339())
}

} // verus!
