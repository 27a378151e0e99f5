//! The wall clock.
use vstd::prelude::*;

verus! {

/// Relies on chrono::Utc::now and DateTime::timestamp_millis: the current
/// time in milliseconds since the Unix epoch. Nothing is known of its value.
#[verifier::external_body]
pub(crate) fn now_millis() -> (r: i64) {
    chrono::Utc::now().timestamp_millis()
}

/// The current time in milliseconds, or zero before the epoch.
pub fn current_time_ms() -> (r: u64) {
    let t = now_millis();
    if t < 0 {
        0
    } else {
        t as u64
    }
}

} // verus!
