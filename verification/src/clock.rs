//! Wall-clock and timestamp-parsing calls, behind trusted wrappers. Time
//! flows into the verified logic as plain epoch milliseconds or seconds;
//! functions that depend on "now" take it as an argument and are verified
//! for every value of it.

use vstd::prelude::*;

verus! {

/// The epoch milliseconds an RFC 3339 timestamp denotes, or nothing when
/// the text does not parse: a function of the text alone.
pub uninterp spec fn rfc3339_millis_of(s: Seq<char>) -> Option<i64>;

/// Relies on chrono's `Utc::now`: the current wall-clock time in
/// milliseconds since the Unix epoch. Nothing is assumed of the value —
/// two calls may return anything.
#[verifier::external_body]
pub fn now_millis() -> i64 {
    chrono::Utc::now().timestamp_millis()
}

/// Relies on chrono's `DateTime::parse_from_rfc3339`, whose result is a
/// function of the text alone; `timestamp_millis` converts the parsed
/// instant to plain epoch milliseconds.
#[verifier::external_body]
pub fn parse_rfc3339_millis(s: &str) -> (r: Option<i64>)
    ensures
        r == rfc3339_millis_of(s@),
{
    match chrono::DateTime::parse_from_rfc3339(s) {
        Ok(dt) => Some(dt.timestamp_millis()),
        Err(_) => None,
    }
}

} // verus!
