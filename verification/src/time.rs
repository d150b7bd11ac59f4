//! Timestamps in nanoseconds.

use vstd::prelude::*;

verus! {

/// Nanoseconds in one millisecond.
pub const NANOS_PER_MILLI: u128 = 1_000_000;

/// `std::time::SystemTime`, a reading of the system clock: nothing is known
/// of what it holds.
#[verifier::external_type_specification]
#[verifier::external_body]
pub struct ExSystemTime(std::time::SystemTime);

/// `std::time::SystemTimeError`, what comes of measuring from a later time:
/// nothing is known of what it holds.
#[verifier::external_type_specification]
#[verifier::external_body]
pub struct ExSystemTimeError(std::time::SystemTimeError);

/// `std::time::SystemTime::now`: the reading of the system clock. Nothing is
/// claimed of it.
#[verifier::external_body]
fn clock_reading() -> (reading: std::time::SystemTime) {
    std::time::SystemTime::now()
}

/// `std::time::SystemTime::duration_since`, measured from
/// `std::time::UNIX_EPOCH`: the time elapsed from the epoch to `reading`, or
/// an error where `reading` lies before the epoch. Nothing is claimed of
/// which it is.
#[verifier::external_body]
fn elapsed_since_epoch(reading: &std::time::SystemTime) -> (elapsed: Result<
    std::time::Duration,
    std::time::SystemTimeError,
>) {
    reading.duration_since(std::time::UNIX_EPOCH)
}

/// `std::time::Duration::as_nanos`: the whole duration in nanoseconds.
/// Nothing is claimed of the number.
#[verifier::external_body]
fn whole_nanoseconds(duration: &std::time::Duration) -> (nanoseconds: u128) {
    duration.as_nanos()
}

/// The current time in nanoseconds since the Unix epoch: the `timestamp` of
/// what the system clock reads. Of a clock's reading nothing is promised.
pub fn now() -> (nanoseconds: u128) {
    let reading = clock_reading();
    let elapsed = match elapsed_since_epoch(&reading) {
        Ok(elapsed) => Some(whole_nanoseconds(&elapsed)),
        Err(_) => None,
    };
    timestamp(elapsed)
}

/// The timestamp of a clock that reads `elapsed` nanoseconds past the Unix
/// epoch. A clock set before the epoch has no such reading: it gives the
/// timestamp of the epoch itself.
pub fn timestamp(elapsed: Option<u128>) -> (nanoseconds: u128)
    ensures
        nanoseconds == match elapsed {
            Some(reading) => reading,
            None => 0,
        },
{
    match elapsed {
        Some(reading) => reading,
        None => 0,
    }
}

/// The number of nanoseconds in `milliseconds` milliseconds.
pub fn to_nano(milliseconds: u16) -> (nanoseconds: u128)
    ensures
        nanoseconds == milliseconds * NANOS_PER_MILLI,
{
    milliseconds as u128 * NANOS_PER_MILLI
}

} // verus!
