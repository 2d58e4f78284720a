//! The wall clock. Readings are taken here and handed to the verified logic
//! as plain millisecond counts; nothing is promised about their values.

use vstd::prelude::*;
use std::time::{Duration, Instant, SystemTime, UNIX_EPOCH};

verus! {

#[verifier::external_type_specification]
#[verifier::external_body]
pub struct ExSystemTime(std::time::SystemTime);

#[verifier::external_type_specification]
#[verifier::external_body]
pub struct ExInstant(std::time::Instant);

/// `SystemTime::now`: the current wall-clock time (any value).
#[verifier::external_body]
pub(crate) fn system_time_now() -> SystemTime {
    SystemTime::now()
}

/// `SystemTime::duration_since(UNIX_EPOCH)`: the time since the epoch, or
/// `None` for a time before it.
#[verifier::external_body]
pub(crate) fn duration_since_epoch(t: SystemTime) -> Option<Duration> {
    t.duration_since(UNIX_EPOCH).ok()
}

/// `Duration::as_millis`: whole milliseconds in the duration.
#[verifier::external_body]
pub(crate) fn duration_as_millis(d: Duration) -> u128 {
    d.as_millis()
}

/// `Duration::as_nanos`: whole nanoseconds in the duration.
#[verifier::external_body]
pub(crate) fn duration_as_nanos(d: Duration) -> u128 {
    d.as_nanos()
}

/// `Duration::as_secs`: whole seconds in the duration.
#[verifier::external_body]
pub(crate) fn duration_as_secs(d: Duration) -> u64 {
    d.as_secs()
}

/// `Instant::now`: a reading of the monotonic clock.
#[verifier::external_body]
pub(crate) fn instant_now() -> Instant {
    Instant::now()
}

/// `Instant::elapsed`: the time since the reading.
#[verifier::external_body]
pub(crate) fn instant_elapsed(i: &Instant) -> Duration {
    i.elapsed()
}

/// Milliseconds since the Unix epoch (0 for a clock set before the epoch),
/// truncated to 64 bits.
pub fn now_millis() -> u64 {
    match duration_since_epoch(system_time_now()) {
        Some(d) => duration_as_millis(d) as u64,
        None => 0,
    }
}

/// Seconds since the Unix epoch (0 for a clock set before the epoch).
pub fn now_secs() -> u64 {
    match duration_since_epoch(system_time_now()) {
        Some(d) => duration_as_secs(d),
        None => 0,
    }
}

/// Nanoseconds since the Unix epoch (0 for a clock set before the epoch),
/// truncated to 64 bits.
pub fn now_nanos() -> u64 {
    match duration_since_epoch(system_time_now()) {
        Some(d) => duration_as_nanos(d) as u64,
        None => 0,
    }
}

} // verus!
