//! The system's clock.

use std::time::{Duration, SystemTime, SystemTimeError, UNIX_EPOCH};

use vstd::prelude::*;

verus! {

/// The most nanoseconds that a duration holds.
pub const MAX_NANOSECONDS: u128 = 18_446_744_073_709_551_615_999_999_999;

/// A point in time on the system's clock.
#[verifier::external_type_specification]
#[verifier::external_body]
pub struct ExternalSystemTime(SystemTime);

/// How a point in time lies before another.
#[verifier::external_type_specification]
#[verifier::external_body]
pub struct ExternalSystemTimeError(SystemTimeError);

/// What `SystemTime::duration_since` with the Unix epoch makes of a point in
/// time: the time from the epoch to it, or nothing where it lies before.
pub uninterp spec fn since_epoch_of(time: SystemTime) -> Option<Duration>;

/// What `Duration::as_nanos` makes of a duration.
pub uninterp spec fn nanoseconds_of(duration: Duration) -> u128;

/// `SystemTime::now` gives the system's time. Nothing is claimed of it.
pub assume_specification[ SystemTime::now ]() -> (time: SystemTime)
;

/// `SystemTime::duration_since` with the Unix epoch gives the time that passed
/// from the epoch to the given point in time, or an error where that lies before
/// it. Which it is, and which duration, depends on the point in time alone.
#[verifier::external_body]
fn since_epoch(time: SystemTime) -> (r: Result<Duration, SystemTimeError>)
    ensures
        match r {
            Ok(duration) => since_epoch_of(time) == Some(duration),
            Err(_) => since_epoch_of(time) is None,
        },
{
    time.duration_since(UNIX_EPOCH)
}

/// `Duration::as_nanos` gives the number of nanoseconds in a duration, which
/// depends on the duration alone: at most that of the longest one.
pub assume_specification[ Duration::as_nanos ](duration: &Duration) -> (nanoseconds: u128)
    ensures
        nanoseconds == nanoseconds_of(*duration),
        nanoseconds <= MAX_NANOSECONDS,
;

/// The nanoseconds since the epoch, 0 where the clock stands before it.
pub fn nanoseconds(elapsed: Option<u128>) -> (r: u128)
    ensures
        r == (match elapsed {
            Some(n) => n,
            None => 0,
        }),
{
    match elapsed {
        Some(n) => n,
        None => 0,
    }
}

/// The nanoseconds from the Unix epoch to a point in time, 0 where it lies before.
pub open spec fn nanoseconds_to(time: SystemTime) -> u128 {
    match since_epoch_of(time) {
        Some(duration) => nanoseconds_of(duration),
        None => 0,
    }
}

/// The nanoseconds from the Unix epoch to a point in time.
pub fn nanoseconds_at(time: SystemTime) -> (r: u128)
    ensures
        r == nanoseconds_to(time),
        r <= MAX_NANOSECONDS,
{
    match since_epoch(time) {
        Ok(duration) => nanoseconds(Some(duration.as_nanos())),
        Err(_) => nanoseconds(None),
    }
}

/// The system's time in nanoseconds since the Unix epoch: those of a point in
/// time. Which point in time the clock shows is not said.
pub fn now_ns() -> (r: u128)
    ensures
        exists|time: SystemTime| r == #[trigger] nanoseconds_to(time),
        r <= MAX_NANOSECONDS,
{
    nanoseconds_at(SystemTime::now())
}

} // verus!
