//! Reading the wall clock, in whole seconds since the epoch.

use vstd::prelude::*;
use std::time::{Duration, SystemTime, SystemTimeError};

verus! {

/// A point in time as the operating system reports it, carried through as
/// an opaque value.
#[verifier::external_type_specification]
#[verifier::external_body]
pub struct ExSystemTime(std::time::SystemTime);

/// The error of a time that lies before the one it is measured from,
/// carried through as an opaque value.
#[verifier::external_type_specification]
#[verifier::external_body]
pub struct ExSystemTimeError(std::time::SystemTimeError);

/// `SystemTime::now`: the current time. Nothing is claimed of it.
pub assume_specification[ SystemTime::now ]() -> (now: SystemTime)
;

/// `SystemTime::duration_since`: the time elapsed since `earlier`, or an
/// error where `earlier` is the later of the two. Nothing is claimed of
/// either.
pub assume_specification[ SystemTime::duration_since ](
    time: &SystemTime,
    earlier: SystemTime,
) -> (elapsed: Result<Duration, SystemTimeError>)
;

/// `Duration::as_secs`: the whole seconds of a duration. Nothing is
/// claimed of the number.
pub assume_specification[ Duration::as_secs ](duration: &Duration) -> (secs: u64)
;

/// The constant `std::time::UNIX_EPOCH`.
#[verifier::external_body]
fn unix_epoch() -> (epoch: SystemTime) {
    std::time::UNIX_EPOCH
}

/// The whole seconds since the epoch as the clock shows them, or zero
/// where the clock stands before it. Nothing can be said of the number.
pub fn unix_seconds() -> (secs: u64) {
    let now: SystemTime = SystemTime::now();
    let elapsed: Option<u64> = match now.duration_since(unix_epoch()) {
        Ok(elapsed) => Some(elapsed.as_secs()),
        Err(_) => None,
    };
    seconds_or_zero(elapsed)
}

/// The reading of a clock in whole seconds since the epoch: the seconds
/// elapsed where the clock stands at or after the epoch, and zero where it
/// stands before it and nothing has elapsed.
pub fn seconds_or_zero(elapsed: Option<u64>) -> (secs: u64)
    ensures
        secs == match elapsed {
            Some(s) => s,
            None => 0,
        },
{
    match elapsed {
        Some(s) => s,
        None => 0,
    }
}

} // verus!
