//! The time of day, as entries record it.

use std::time::{Duration, SystemTime, SystemTimeError, UNIX_EPOCH};

use vstd::prelude::*;

verus! {

#[verifier::external_type_specification]
#[verifier::external_body]
pub struct ExSystemTime(SystemTime);

#[verifier::external_type_specification]
#[verifier::external_body]
pub struct ExSystemTimeError(SystemTimeError);

/// Calls `SystemTime::now`. Nothing is claimed of the time that it returns.
#[verifier::external_body]
fn current_time() -> (time: SystemTime) {
    SystemTime::now()
}

/// Calls `SystemTime::duration_since` with the start of the Unix epoch. Nothing is
/// claimed of the result: it is an error where the clock stands before the epoch.
#[verifier::external_body]
fn since_epoch(time: &SystemTime) -> (elapsed: Result<Duration, SystemTimeError>) {
    time.duration_since(UNIX_EPOCH)
}

/// Calls `Duration::as_millis`. Nothing is claimed of the number of milliseconds.
#[verifier::external_body]
fn whole_millis(elapsed: &Duration) -> (millis: u128) {
    elapsed.as_millis()
}

/// The time stamp for a number of milliseconds since the Unix epoch: the number
/// itself as far as it fits, or zero for a clock that stands before the epoch.
pub fn epoch_millis(elapsed: Option<u128>) -> (millis: i64)
    ensures
        millis == (match elapsed {
            Some(elapsed) => elapsed as i64,
            None => 0i64,
        }),
{
    match elapsed {
        Some(elapsed) => elapsed as i64,
        None => 0,
    }
}

/// The current time in milliseconds since the Unix epoch: what [`epoch_millis`]
/// makes of the system clock. Nothing is claimed of where the clock stands.
pub fn now_millis() -> (millis: i64) {
    match since_epoch(&current_time()) {
        Ok(elapsed) => epoch_millis(Some(whole_millis(&elapsed))),
        Err(_) => epoch_millis(None),
    }
}

} // verus!
