//! Timestamp parsing and the local UTC offset, via the chrono crate.
//!
//! Both entry points here are trusted: their contracts state what chrono's
//! source shows, and everything downstream is verified against them.

use vstd::prelude::*;

verus! {

/// The Unix timestamp (whole seconds, UTC) that an RFC 3339 text denotes,
/// or `None` when the bytes are not a valid RFC 3339 timestamp. The result
/// is a function of the bytes alone.
pub uninterp spec fn rfc3339_unix(s: Seq<u8>) -> Option<i64>;

/// Relies on chrono::DateTime::parse_from_rfc3339 and DateTime::timestamp:
/// parsing either fails or yields an instant, and the instant's whole-second
/// timestamp depends on the text alone. chrono bounds every date to roughly
/// the years -262144..=262143, so a returned timestamp is far inside 1e13.
#[verifier::external_body]
pub fn parse_rfc3339_unix(s: &Vec<u8>) -> (r: Option<i64>)
    ensures
        r == rfc3339_unix(s@),
        r matches Some(t) ==> -10_000_000_000_000 <= t <= 10_000_000_000_000,
{
    match core::str::from_utf8(s.as_slice()) {
        Ok(text) => match chrono::DateTime::parse_from_rfc3339(text) {
            Ok(dt) => Some(dt.timestamp()),
            Err(_) => None,
        },
        Err(_) => None,
    }
}

/// Relies on chrono::Local::now and FixedOffset::local_minus_utc: the local
/// offset from UTC in seconds. chrono constructs every FixedOffset strictly
/// between -86400 and 86400; nothing more can be said of a value that
/// depends on the machine's clock and time zone.
#[verifier::external_body]
pub fn local_utc_offset() -> (r: i32)
    ensures
        -86400 < r < 86400,
{
    chrono::Local::now().offset().local_minus_utc()
}

} // verus!
