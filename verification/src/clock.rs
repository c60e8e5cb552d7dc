//! The wall clock, in nanoseconds since the Unix epoch.

use std::time::{Duration, SystemTime};
use vstd::prelude::*;

verus! {

/// Makes `std::time::SystemTime` known as a type of which nothing is seen.
#[verifier::external_type_specification]
#[verifier::external_body]
pub struct ExSystemTime(SystemTime);

/// Calls `SystemTime::now`. Nothing is known of the time it gives.
#[verifier::external_body]
fn system_now() -> SystemTime {
    SystemTime::now()
}

/// Calls `SystemTime::duration_since` with the Unix epoch. It fails where
/// the clock stands before the epoch. Nothing else is known of the result.
#[verifier::external_body]
fn since_epoch(at: &SystemTime) -> Option<Duration> {
    match at.duration_since(SystemTime::UNIX_EPOCH) {
        Ok(elapsed) => Some(elapsed),
        Err(_) => None,
    }
}

/// Calls `Duration::as_nanos`. Nothing is known of the number it gives.
#[verifier::external_body]
fn whole_nanos(elapsed: &Duration) -> u128 {
    elapsed.as_nanos()
}

/// The timestamp for `nanos` nanoseconds since the epoch: the number
/// itself while it fits 64 bits, and its low 64 bits beyond.
pub open spec fn timestamp_of(nanos: Option<u128>) -> u64 {
    match nanos {
        Some(n) => (n % 0x1_0000_0000_0000_0000) as u64,
        None => 0,
    }
}

/// Makes a timestamp of the time elapsed since the epoch. A clock that
/// stands before the epoch gives zero.
pub fn timestamp_from(nanos: Option<u128>) -> (r: u64)
    ensures
        r == timestamp_of(nanos),
{
    match nanos {
        Some(n) => (n % 0x1_0000_0000_0000_0000) as u64,
        None => 0,
    }
}

/// The time now, in nanoseconds since the Unix epoch. The result depends on
/// the clock alone, so nothing is promised of it; what is made of the
/// clock's reading is what `timestamp_from` states.
pub fn current_time_ns() -> u64 {
    let now = system_now();
    match since_epoch(&now) {
        Some(elapsed) => timestamp_from(Some(whole_nanos(&elapsed))),
        None => timestamp_from(None),
    }
}

} // verus!
