//! The wall clock, read as whole seconds since 1970-01-01 UTC.

use std::time::{Duration, SystemTime, SystemTimeError, UNIX_EPOCH};
use vstd::prelude::*;

verus! {

#[verifier::external_type_specification]
#[verifier::external_body]
pub struct ExSystemTime(std::time::SystemTime);

#[verifier::external_type_specification]
#[verifier::external_body]
pub struct ExSystemTimeError(std::time::SystemTimeError);

/// `SystemTime::now`: the reading of the system clock. Nothing is claimed of
/// the value; two readings may differ in either direction.
#[verifier::external_body]
fn clock_reading() -> SystemTime {
    SystemTime::now()
}

/// `SystemTime::duration_since` against `UNIX_EPOCH`: how far the reading lies
/// after the epoch, or the error std gives for a reading before it. Nothing
/// is claimed of which of the two comes back.
#[verifier::external_body]
fn after_epoch(reading: &SystemTime) -> Result<Duration, SystemTimeError> {
    reading.duration_since(UNIX_EPOCH)
}

/// `Duration::as_secs`: the whole seconds of a duration. The duration is
/// opaque here, so nothing is claimed of the number.
#[verifier::external_body]
fn whole_seconds(span: &Duration) -> u64 {
    span.as_secs()
}

/// The current time in whole seconds since the epoch. A clock that is set
/// before the epoch reads as 0, which every consumer treats as "no time yet".
pub fn unix_seconds() -> u64 {
    let reading = clock_reading();
    let offset = match after_epoch(&reading) {
        Ok(span) => Some(whole_seconds(&span)),
        Err(_) => None,
    };
    seconds_counted(offset)
}

/// What a reading of the clock counts as: its whole seconds after the epoch,
/// and 0 where the reading lies before the epoch and has none.
pub open spec fn counted(offset: Option<u64>) -> u64 {
    match offset {
        Some(seconds) => seconds,
        None => 0,
    }
}

/// The seconds that a reading of the clock counts as, given how far after
/// the epoch it lies, if it does.
pub fn seconds_counted(offset: Option<u64>) -> (seconds: u64)
    ensures
        seconds == counted(offset),
{
    match offset {
        Some(seconds) => seconds,
        None => 0,
    }
}

} // verus!
