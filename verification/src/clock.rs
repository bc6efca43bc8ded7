//! The wall clock, in milliseconds since the Unix epoch.

use vstd::prelude::*;
use std::time::Duration;
use std::time::SystemTime;
use std::time::SystemTimeError;

verus! {

/// `std::time::SystemTime`, a reading of the system clock, carried as an
/// opaque value.
#[verifier::external_type_specification]
#[verifier::external_body]
pub struct ExSystemTime(std::time::SystemTime);

/// `std::time::SystemTimeError`, the error of a clock that stands before the
/// time it is measured from, carried as an opaque value.
#[verifier::external_type_specification]
#[verifier::external_body]
pub struct ExSystemTimeError(std::time::SystemTimeError);

/// `SystemTime::now`: the system clock's reading. Nothing is claimed of it.
#[verifier::external_body]
fn current_time() -> SystemTime {
    SystemTime::now()
}

/// `SystemTime::duration_since`, measured from `SystemTime::UNIX_EPOCH`: the
/// time elapsed since the epoch, or an error where the clock stands before
/// it. Nothing is claimed of either.
#[verifier::external_body]
fn since_epoch(time: &SystemTime) -> Result<Duration, SystemTimeError> {
    time.duration_since(SystemTime::UNIX_EPOCH)
}

/// `Duration::as_millis`: the whole milliseconds in a span of time. Nothing
/// is claimed of the number.
#[verifier::external_body]
fn whole_millis(span: &Duration) -> u128 {
    span.as_millis()
}

/// The timestamp for a reading of the clock: the milliseconds elapsed since
/// the epoch, and zero where the clock stood before the epoch.
pub fn millis_or_epoch(elapsed: Option<u128>) -> (millis: u128)
    ensures
        millis == (match elapsed {
            Some(m) => m,
            None => 0u128,
        }),
{
    match elapsed {
        Some(m) => m,
        None => 0,
    }
}

/// The current time in milliseconds since the Unix epoch; zero if the clock
/// is set before the epoch. The result depends on the clock alone, so nothing
/// is promised of it.
pub fn now() -> u128 {
    let time = current_time();
    let elapsed = match since_epoch(&time) {
        Ok(span) => Some(whole_millis(&span)),
        Err(_) => None,
    };
    millis_or_epoch(elapsed)
}

} // verus!
