//! The system clock, read through std one call at a time.
use vstd::prelude::*;
use std::time::{Duration, SystemTime, UNIX_EPOCH};

verus! {

#[verifier::external_type_specification]
#[verifier::external_body]
pub struct ExSystemTime(SystemTime);

/// Wraps `SystemTime::now`: a reading of the system clock, of which nothing
/// is stated.
#[verifier::external_body]
fn system_time_now() -> (r: SystemTime) {
    SystemTime::now()
}

/// Wraps `SystemTime::duration_since` from `UNIX_EPOCH`: the time since the
/// epoch, or nothing when the reading lies before it.
#[verifier::external_body]
fn since_unix_epoch(t: &SystemTime) -> (r: Option<Duration>) {
    t.duration_since(UNIX_EPOCH).ok()
}

/// Wraps `Duration::as_secs`: the whole seconds of a duration.
#[verifier::external_body]
fn duration_secs(d: &Duration) -> (r: u64) {
    d.as_secs()
}

/// Whole seconds since the Unix epoch by the system clock; nothing when the
/// clock reads before the epoch.
pub(crate) fn unix_seconds_now() -> (r: Option<u64>) {
    let now = system_time_now();
    match since_unix_epoch(&now) {
        Some(d) => Some(duration_secs(&d)),
        None => None,
    }
}

} // verus!
