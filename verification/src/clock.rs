//! Readings of the machine's monotonic clock.
//!
//! The wall clock is the caller's to read: a [`Clock`] takes it as a plain
//! number.

use vstd::prelude::*;
use crate::pipeline::Clock;

verus! {

/// `std::time::Instant`: a moment of the monotonic clock, carried as an
/// opaque value.
#[verifier::external_type_specification]
#[verifier::external_body]
pub struct ExInstant(std::time::Instant);

/// A point in time from which the monotonic clock is read.
#[derive(Debug, Clone, Copy)]
pub struct Stopwatch {
    origin: std::time::Instant,
}

/// `std::time::Instant::now`: the present moment of the monotonic clock.
/// Nothing is claimed of it.
#[verifier::external_body]
fn monotonic_now() -> (origin: std::time::Instant) {
    std::time::Instant::now()
}

/// `std::time::Instant::elapsed`: the time since `origin` on the monotonic
/// clock. Nothing is claimed of it.
#[verifier::external_body]
fn elapsed_since(origin: &std::time::Instant) -> (passed: std::time::Duration) {
    origin.elapsed()
}

/// `std::time::Duration::as_nanos`: the length of `passed` in nanoseconds.
/// Nothing is claimed of the number.
#[verifier::external_body]
fn whole_nanos(passed: &std::time::Duration) -> (nanos: u128) {
    passed.as_nanos()
}

/// A count of nanoseconds in 64 bits: the count itself where it fits, the
/// largest 64-bit number where it does not.
pub open spec fn capped(nanos: u128) -> u64 {
    if nanos <= u64::MAX {
        nanos as u64
    } else {
        u64::MAX
    }
}

/// A count of nanoseconds cut to 64 bits, which hold more than five
/// centuries.
pub fn cap_nanos(nanos: u128) -> (short: u64)
    ensures
        short == capped(nanos),
{
    if nanos <= u64::MAX as u128 {
        nanos as u64
    } else {
        u64::MAX
    }
}

impl Stopwatch {
    /// A stopwatch that starts now.
    pub fn start() -> (watch: Self) {
        Stopwatch { origin: monotonic_now() }
    }

    /// The clocks as they stand: the time since the start on the monotonic
    /// clock, beside the wall clock as the caller read it.
    pub fn read(&self, wall: i64) -> (now: Clock)
        ensures
            now.wall == wall,
    {
        let passed = elapsed_since(&self.origin);
        Clock { mono: cap_nanos(whole_nanos(&passed)), wall }
    }
}

} // verus!
