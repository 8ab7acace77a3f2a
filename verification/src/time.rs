//! Instants in UTC and the calls into `chrono` that read or produce them.

use chrono::TimeZone;
use vstd::prelude::*;

verus! {

/// An instant in UTC: whole seconds since the Unix epoch and the nanoseconds
/// past that second (as `chrono::DateTime<Utc>` reports them through
/// `timestamp` and `timestamp_subsec_nanos`).
#[derive(Clone, Copy, PartialEq, Eq, Debug)]
pub struct Timestamp {
    pub secs: i64,
    pub nanos: u32,
}

/// The earliest second `chrono` can represent (January 1, 262144 BCE).
pub const MIN_EPOCH_SECS: i64 = -8_334_601_228_800i64;

/// The latest second `chrono` can represent (December 31, 262142 CE, 23:59:59).
pub const MAX_EPOCH_SECS: i64 = 8_210_266_876_799i64;

/// The instant that `DateTime::parse_from_rfc2822` reads from a text, if it
/// accepts it.
pub uninterp spec fn rfc2822_instant(text: Seq<char>) -> Option<Timestamp>;

/// The instant that `DateTime::parse_from_rfc3339` reads from a text, if it
/// accepts it.
pub uninterp spec fn rfc3339_instant(text: Seq<char>) -> Option<Timestamp>;

/// Calls `chrono::DateTime::parse_from_rfc2822` and converts the result to
/// UTC. Claimed: it succeeds exactly when the named result is present, and
/// then gives it. The error text is chrono's own message and is not described.
#[verifier::external_body]
pub(crate) fn parse_rfc2822(text: &str) -> (r: Result<Timestamp, String>)
    ensures
        r is Ok <==> rfc2822_instant(text@) is Some,
        r matches Ok(t) ==> rfc2822_instant(text@) == Some(t),
{
    match chrono::DateTime::parse_from_rfc2822(text) {
        Ok(dt) => Ok(Timestamp { secs: dt.timestamp(), nanos: dt.timestamp_subsec_nanos() }),
        Err(err) => Err(err.to_string()),
    }
}

/// Calls `chrono::DateTime::parse_from_rfc3339` and converts the result to
/// UTC. Claimed: it succeeds exactly when the named result is present, and
/// then gives it. The error text is chrono's own message and is not described.
#[verifier::external_body]
pub(crate) fn parse_rfc3339(text: &str) -> (r: Result<Timestamp, String>)
    ensures
        r is Ok <==> rfc3339_instant(text@) is Some,
        r matches Ok(t) ==> rfc3339_instant(text@) == Some(t),
{
    match chrono::DateTime::parse_from_rfc3339(text) {
        Ok(dt) => Ok(Timestamp { secs: dt.timestamp(), nanos: dt.timestamp_subsec_nanos() }),
        Err(err) => Err(err.to_string()),
    }
}

/// Calls `chrono::Utc::now`. Nothing is claimed about the instant: it is the
/// clock's reading.
#[verifier::external_body]
pub(crate) fn now_utc() -> (t: Timestamp) {
    let now = chrono::Utc::now();
    Timestamp { secs: now.timestamp(), nanos: now.timestamp_subsec_nanos() }
}

/// Calls `Utc.timestamp_opt(secs, 0).single()`. Claimed, from chrono's
/// `DateTime::from_timestamp`: a single instant exists exactly when `secs`
/// lies in chrono's representable range, and it is that second with no
/// fraction.
#[verifier::external_body]
pub(crate) fn utc_from_epoch_secs(secs: i64) -> (r: Option<Timestamp>)
    ensures
        r is Some <==> MIN_EPOCH_SECS <= secs <= MAX_EPOCH_SECS,
        r matches Some(t) ==> t == (Timestamp { secs: secs, nanos: 0 }),
{
    chrono::Utc.timestamp_opt(secs, 0).single().map(
        |dt| Timestamp { secs: dt.timestamp(), nanos: dt.timestamp_subsec_nanos() },
    )
}

} // verus!
