//! Reading the system clock, as nanoseconds since the Unix epoch.

use vstd::prelude::*;

verus! {

/// One more than the largest number of nanoseconds that a
/// `std::time::Duration` holds (`u64::MAX` seconds and 999,999,999 nanoseconds).
pub const DURATION_NANOS_LIMIT: u128 = 18_446_744_073_709_551_616_000_000_000u128;

/// Nanoseconds in a second.
pub const NANOS_PER_SECOND: u128 = 1_000_000_000u128;

/// The time elapsed since the Unix epoch, in nanoseconds, by
/// `std::time::SystemTime::now` and `SystemTime::duration_since`, or `None`
/// where the clock reads before the epoch. The elapsed time is a
/// `std::time::Duration`, hence below `DURATION_NANOS_LIMIT`. Nothing is
/// claimed of which time it reads.
#[verifier::external_body]
pub(crate) fn clock_nanos() -> (r: Option<u128>)
    ensures
        r matches Some(n) ==> n < DURATION_NANOS_LIMIT,
{
    match std::time::SystemTime::now().duration_since(std::time::UNIX_EPOCH) {
        Ok(elapsed) => Some(elapsed.as_nanos()),
        Err(_) => None,
    }
}

/// The clock's reading, with a clock set before the epoch taken as the
/// epoch itself.
pub(crate) fn now_nanos() -> (r: u128)
    ensures
        r < DURATION_NANOS_LIMIT,
{
    match clock_nanos() {
        Some(n) => n,
        None => 0,
    }
}

} // verus!
