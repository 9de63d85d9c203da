//! The system clock.
use std::time::{Duration, SystemTime, SystemTimeError};
use vstd::prelude::*;

verus! {

/// `std::time::SystemTime`, a clock reading, opaque.
#[verifier::external_type_specification]
#[verifier::external_body]
pub struct ExSystemTime(SystemTime);

/// `std::time::SystemTimeError`, opaque.
#[verifier::external_type_specification]
#[verifier::external_body]
pub struct ExSystemTimeError(SystemTimeError);

/// `SystemTime::now`: the clock's reading. Nothing is promised of it.
#[verifier::external_body]
fn system_time_now() -> SystemTime {
    SystemTime::now()
}

/// `SystemTime::duration_since(UNIX_EPOCH)`: how long after the epoch `t` is, or an
/// error when `t` is earlier. Nothing is promised of the duration.
#[verifier::external_body]
fn since_epoch(t: &SystemTime) -> Result<Duration, SystemTimeError> {
    t.duration_since(std::time::UNIX_EPOCH)
}

/// `Duration::as_nanos`: the whole duration in nanoseconds. Nothing is promised of it,
/// as nothing is known of the duration.
#[verifier::external_body]
fn duration_nanos(d: &Duration) -> u128 {
    d.as_nanos()
}

/// The clock's reading in nanoseconds since the epoch; a clock set before the epoch
/// reads as zero.
pub(crate) fn unix_time_nanos() -> u128 {
    let now = system_time_now();
    match since_epoch(&now) {
        Ok(d) => duration_nanos(&d),
        Err(_) => 0,
    }
}

} // verus!
