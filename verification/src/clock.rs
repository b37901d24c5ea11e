//! The wall clock, read as milliseconds since the Unix epoch.

use vstd::prelude::*;
use std::time::{Duration, SystemTime, SystemTimeError};

verus! {

/// `std::time::SystemTime`, a reading of the system clock; nothing is known of its inside.
#[verifier::external_type_specification]
#[verifier::external_body]
pub struct ExSystemTime(SystemTime);

/// `std::time::SystemTimeError`, the error of a clock reading that lies before the
/// instant it is compared with; nothing is known of its inside.
#[verifier::external_type_specification]
#[verifier::external_body]
pub struct ExSystemTimeError(SystemTimeError);

/// `SystemTime::now` of std: reads the system clock. Nothing is claimed of the reading.
pub assume_specification[ SystemTime::now ]() -> (now: SystemTime)
;

/// `SystemTime::duration_since` of std: the time elapsed from `earlier` to `this`, or an
/// error where `earlier` is the later of the two. Nothing is claimed of the result.
pub assume_specification[ SystemTime::duration_since ](
    this: &SystemTime,
    earlier: SystemTime,
) -> (elapsed: Result<Duration, SystemTimeError>)
;

/// `Duration::as_millis` of std: the whole milliseconds that the duration holds.
/// Nothing is claimed of the number.
pub assume_specification[ Duration::as_millis ](duration: &Duration) -> (millis: u128)
;

/// The constant `std::time::UNIX_EPOCH`: the instant from which timestamps count.
#[verifier::external_body]
fn unix_epoch() -> (epoch: SystemTime) {
    std::time::UNIX_EPOCH
}

/// The timestamp for a clock that reads `millis` milliseconds past the epoch.
pub open spec fn timestamp_of(elapsed: Option<u128>) -> Option<i64> {
    match elapsed {
        Some(millis) if millis <= i64::MAX => Some(millis as i64),
        _ => None,
    }
}

/// Turns a clock reading into a timestamp. `elapsed` is the number of milliseconds
/// since the epoch, or `None` where the clock reads a time before the epoch. There
/// is a timestamp exactly where there is a reading and it fits.
pub fn timestamp_from_millis(elapsed: Option<u128>) -> (timestamp: Option<i64>)
    ensures
        timestamp == timestamp_of(elapsed),
{
    match elapsed {
        Some(millis) => {
            if millis <= i64::MAX as u128 {
                Some(millis as i64)
            } else {
                None
            }
        },
        None => None,
    }
}

/// The current time in milliseconds since the Unix epoch, or `None` where the clock
/// reads a time before the epoch or one too late for a timestamp.
pub fn current_time_in_millis() -> (timestamp: Option<i64>)
    ensures
        timestamp matches Some(millis) ==> millis >= 0,
{
    let now = SystemTime::now();
    let elapsed = match now.duration_since(unix_epoch()) {
        Ok(duration) => Some(duration.as_millis()),
        Err(_) => None,
    };
    timestamp_from_millis(elapsed)
}

} // verus!
