//! The wall clock, as the rest of the library reads it.

use vstd::prelude::*;

verus! {

/// The last second that chrono can represent in UTC (December 31 of year 262142).
pub const MAX_UTC_TIMESTAMP: i64 = 8_210_266_876_799;

/// Seconds since the Unix epoch, now.
/// Calls `chrono::Utc::now().timestamp()`. The value depends on the clock; the
/// contract claims only the range: `Utc::now` measures from the epoch (it panics
/// on a clock set before 1970) and builds a `DateTime` that chrono can represent.
#[verifier::external_body]
pub(crate) fn now_timestamp() -> (t: i64)
    ensures
        0 <= t <= MAX_UTC_TIMESTAMP,
{
    chrono::Utc::now().timestamp()
}

/// The current time as an RFC 3339 text.
/// Calls `chrono::Utc::now().to_rfc3339()`; nothing is claimed of the text,
/// which depends on the clock.
#[verifier::external_body]
pub(crate) fn now_rfc3339() -> String {
    chrono::Utc::now().to_rfc3339()
}

} // verus!
