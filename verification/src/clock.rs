use vstd::prelude::*;
use std::time::{Duration, SystemTime, SystemTimeError};

verus! {

#[verifier::external_type_specification]
#[verifier::external_body]
pub struct ExSystemTime(std::time::SystemTime);

#[verifier::external_type_specification]
#[verifier::external_body]
pub struct ExSystemTimeError(std::time::SystemTimeError);

/// Reads the system clock with `SystemTime::now`. Nothing is claimed of the
/// reading.
#[verifier::external_body]
fn clock_now() -> (now: SystemTime) {
    SystemTime::now()
}

/// The time from the epoch to `time`, by `SystemTime::duration_since` with
/// `UNIX_EPOCH`: an error where `time` lies before the epoch. Nothing is
/// claimed of the result.
#[verifier::external_body]
fn since_epoch(time: &SystemTime) -> (elapsed: Result<Duration, SystemTimeError>) {
    time.duration_since(std::time::UNIX_EPOCH)
}

/// `Duration::subsec_nanos`: the part of a duration below one second, in
/// nanoseconds, which is less than one billion.
#[verifier::external_body]
fn subsec_nanos(elapsed: &Duration) -> (nanos: u32)
    ensures
        nanos < 1_000_000_000,
{
    elapsed.subsec_nanos()
}

/// `Duration::as_millis`: the whole milliseconds in a duration. Nothing is
/// claimed of the number.
#[verifier::external_body]
fn whole_millis(elapsed: &Duration) -> (millis: u128) {
    elapsed.as_millis()
}

/// The nanoseconds by which the clock is past a whole second, or 0 where it
/// is set before the epoch.
pub fn nanos_of_second() -> (nanos: u32)
    ensures
        nanos < 1_000_000_000,
{
    let now = clock_now();
    match since_epoch(&now) {
        Ok(elapsed) => subsec_nanos(&elapsed),
        Err(_) => 0,
    }
}

/// The milliseconds since the epoch, cut to 64 bits, or `None` where the
/// clock is set before the epoch.
pub fn millis_since_epoch() -> (millis: Option<u64>) {
    let now = clock_now();
    match since_epoch(&now) {
        Ok(elapsed) => Some(low_64_bits(whole_millis(&elapsed))),
        Err(_) => None,
    }
}

/// A count of milliseconds cut to the 64 bits that a timestamp holds: the
/// count itself where it fits, else its remainder by 2 to the 64th.
pub fn low_64_bits(millis: u128) -> (cut: u64)
    ensures
        cut == millis % 0x1_0000_0000_0000_0000,
        millis <= u64::MAX ==> cut == millis,
{
    assert(millis as u64 == millis % 0x1_0000_0000_0000_0000) by (bit_vector);
    #[verifier::truncate]
    (millis as u64)
}

} // verus!
