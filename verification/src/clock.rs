//! The wall clock. What it shows rests on the machine, so nothing is stated of the present time.

use vstd::prelude::*;

verus! {

/// A reading of the system clock.
#[verifier::external_type_specification]
#[verifier::external_body]
pub struct ExSystemTime(std::time::SystemTime);

/// Calls `std::time::SystemTime::now`. Nothing is claimed of the reading.
#[verifier::external_body]
fn reading() -> (r: std::time::SystemTime) {
    std::time::SystemTime::now()
}

/// Calls `std::time::SystemTime::duration_since` for the Unix epoch. There is none for a clock
/// set before the epoch. Nothing is claimed of the duration.
#[verifier::external_body]
fn since_epoch(reading: std::time::SystemTime) -> (r: Option<std::time::Duration>) {
    reading.duration_since(std::time::UNIX_EPOCH).ok()
}

/// Calls `std::time::Duration::as_secs`. Nothing is claimed of the number.
#[verifier::external_body]
fn whole_seconds(duration: std::time::Duration) -> (r: u64) {
    duration.as_secs()
}

/// The present time in whole seconds since the Unix epoch; zero before it.
pub fn unix_now() -> (r: u64) {
    unix_seconds(
        match since_epoch(reading()) {
            Some(duration) => Some(whole_seconds(duration)),
            None => None,
        },
    )
}

/// The time that a reading of the clock stands for, from the whole seconds between the Unix epoch
/// and the reading. A reading before the epoch has none, and stands for the epoch itself.
pub fn unix_seconds(elapsed: Option<u64>) -> (r: u64)
    ensures
        r == match elapsed {
            Some(seconds) => seconds,
            None => 0,
        },
{
    match elapsed {
        Some(seconds) => seconds,
        None => 0,
    }
}

} // verus!
