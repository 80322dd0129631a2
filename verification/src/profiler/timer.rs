//! Reading the monotonic clock.
use vstd::prelude::*;
use std::time::Instant;
use crate::duration::{Duration, MAX_NANOS};

verus! {

#[verifier::external_type_specification]
#[verifier::external_body]
pub struct ExInstant(std::time::Instant);

/// `Instant::now`: the current reading of the monotonic clock. Nothing is
/// claimed of the value.
#[verifier::external_body]
pub(crate) fn instant_now() -> (r: Instant) {
    Instant::now()
}

/// `Instant::elapsed`: the time since `start`, as `std::time::Duration`.
/// Nothing is claimed of the value: it depends on the clock.
#[verifier::external_body]
fn instant_elapsed(start: &Instant) -> (r: std::time::Duration) {
    start.elapsed()
}

/// `Duration::as_nanos` of std: the whole length in nanoseconds. A std
/// duration holds at most `u64::MAX` seconds and 999 999 999 nanoseconds,
/// so the result is at most `MAX_NANOS`.
#[verifier::external_body]
fn std_duration_nanos(d: &std::time::Duration) -> (r: u128)
    ensures
        r <= MAX_NANOS,
{
    d.as_nanos()
}

/// The time since `start`, whatever the clock says; only its range is known.
pub(crate) fn elapsed_since(start: &Instant) -> (r: Duration)
    ensures
        0 <= r@ <= MAX_NANOS,
{
    let d = instant_elapsed(start);
    let n = std_duration_nanos(&d);
    Duration::from_nanos_u128(n)
}

/// A running measurement of one named operation.
#[derive(Debug)]
pub struct Timer {
    start: Instant,
    name: &'static str,
}

impl Timer {
    /// The name the measurement is recorded under.
    pub closed spec fn spec_name(&self) -> &'static str {
        self.name
    }

    /// Starts measuring `name` now.
    pub fn start(name: &'static str) -> (r: Timer)
        ensures
            r.spec_name() == name,
    {
        Timer { start: instant_now(), name }
    }

    /// The name the measurement is recorded under.
    pub fn name(&self) -> (r: &'static str)
        ensures
            r == self.spec_name(),
    {
        self.name
    }

    /// The time since the timer started; it depends on the clock.
    pub fn elapsed(&self) -> (r: Duration)
        ensures
            0 <= r@ <= MAX_NANOS,
    {
        elapsed_since(&self.start)
    }

    /// Ends the measurement and gives its duration; it depends on the clock.
    pub fn stop(self) -> (r: Duration)
        ensures
            0 <= r@ <= MAX_NANOS,
    {
        self.elapsed()
    }
}

} // verus!
