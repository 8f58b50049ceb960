//! Timestamps, measured in milliseconds since the Unix epoch.

use vstd::prelude::*;

verus! {

/// The instant that an RFC 3339 date-and-time string denotes, in
/// milliseconds since the Unix epoch, or `None` when the string is not a
/// valid RFC 3339 value. The result is a function of the string alone.
pub uninterp spec fn rfc3339_millis(s: Seq<char>) -> Option<i64>;

/// Relies on `chrono::DateTime::parse_from_rfc3339` followed by
/// `DateTime::timestamp_millis`: parses an RFC 3339 date-and-time string
/// and reduces it to an instant; both are deterministic functions of the
/// string, so the composition is named by [`rfc3339_millis`].
#[verifier::external_body]
pub(crate) fn parse_rfc3339_millis(s: &str) -> (r: Option<i64>)
    ensures
        r == rfc3339_millis(s@),
{
    chrono::DateTime::parse_from_rfc3339(s).ok().map(|t| t.timestamp_millis())
}

/// Relies on `chrono::Utc::now`: the current wall-clock instant. Nothing
/// can be promised of the clock's reading.
#[verifier::external_body]
pub(crate) fn now_millis() -> i64 {
    chrono::Utc::now().timestamp_millis()
}

} // verus!
