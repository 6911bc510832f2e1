//! The wall clock. The engine computes with plain millisecond timestamps; only
//! reading the time now goes through the outside clock.

use vstd::prelude::*;
use crate::envelope::MAX_TIME_MS;

verus! {

/// Relies on chrono's `Utc::now`, converted to a plain value by
/// `DateTime::timestamp_millis`: the current time as milliseconds since the
/// Unix epoch. Nothing can be promised of a clock reading.
#[verifier::external_body]
fn now_ms() -> i64 {
    chrono::Utc::now().timestamp_millis()
}

/// The current time, clamped into the range the engine schedules within, so
/// that every caller may rely on it whatever the clock returned.
pub fn now_clamped() -> (t: i64)
    ensures
        0 <= t <= MAX_TIME_MS,
{
    let raw = now_ms();
    if raw < 0 {
        0
    } else if raw > MAX_TIME_MS {
        MAX_TIME_MS
    } else {
        raw
    }
}

} // verus!
