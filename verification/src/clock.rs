//! Time as plain integers: nanoseconds read from a monotonic clock that starts
//! when it is made.

use std::time::Duration;
use std::time::Instant;
use vstd::prelude::*;

verus! {

/// `std::time::Instant`, carried through as an opaque value.
#[verifier::external_type_specification]
#[verifier::external_body]
pub struct ExInstant(Instant);

/// `Instant::now` reads the machine's monotonic clock. Nothing is claimed of the reading.
pub assume_specification[ Instant::now ]() -> (reading: Instant);

/// `Instant::saturating_duration_since` measures the time from an earlier instant to a
/// later one, and gives zero where the first is not the earlier. Nothing is claimed of
/// the measure.
pub assume_specification[ Instant::saturating_duration_since ](
    later: &Instant,
    earlier: Instant,
) -> (passed: Duration);

/// `Duration::as_nanos` gives a duration as a whole number of nanoseconds. Nothing is
/// claimed of the number.
pub assume_specification[ Duration::as_nanos ](span: &Duration) -> (nanos: u128);

/// Whether more than `ttl` nanoseconds lie between `since` and `now`.
/// A `now` before `since` counts as no time passed.
pub open spec fn elapsed_over(since: u128, now: u128, ttl: u128) -> bool {
    now > since && now - since > ttl
}

/// Decides `elapsed_over` without overflow.
pub fn is_elapsed_over(since: u128, now: u128, ttl: u128) -> (over: bool)
    ensures
        over == elapsed_over(since, now, ttl),
{
    now > since && now - since > ttl
}

/// A monotonic clock whose zero is the moment it was made.
pub struct Clock {
    epoch: Instant,
}

impl Clock {
    /// Starts a clock at the present moment.
    pub fn new() -> (clock: Clock) {
        Clock { epoch: Instant::now() }
    }

    /// The nanoseconds that have passed since the clock was started. The reading
    /// depends on the machine, so callers are verified for every value of it.
    pub fn now(&self) -> (nanos: u128) {
        let present = Instant::now();
        let passed = present.saturating_duration_since(self.epoch);
        passed.as_nanos()
    }
}

} // verus!
