//! Access to the wall clock.
//!
//! Every time-dependent operation of the library takes the current time as
//! an explicit argument, so its contract holds for any clock value and a
//! test can drive a simulated clock. This module supplies the real reading
//! for callers that want the wall clock.

use vstd::prelude::*;

verus! {

/// Milliseconds since the Unix epoch, read from the wall clock.
///
/// Relies on chrono's `Utc::now` and `DateTime::timestamp_millis`: `now`
/// aborts if the system clock stands before the epoch, so the returned
/// datetime is at or after it and its millisecond count is not negative.
/// Nothing else can be promised of a clock reading.
#[verifier::external_body]
fn now_millis_raw() -> (r: i64)
    ensures
        r >= 0,
{
    chrono::Utc::now().timestamp_millis()
}

/// The current wall-clock time, in unsigned milliseconds since the epoch.
pub fn current_time_millis() -> u64 {
    let raw = now_millis_raw();
    raw as u64
}

} // verus!
