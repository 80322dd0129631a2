//! A span of time with nanosecond precision and the range of
//! `std::time::Duration` (up to `u64::MAX` seconds and 999 999 999 nanoseconds).
use vstd::prelude::*;

verus! {

/// The largest duration, in nanoseconds.
pub const MAX_NANOS: u128 = 18_446_744_073_709_551_615_999_999_999u128;

/// A span of time, held as a number of nanoseconds.
#[derive(Clone, Copy, Debug, PartialEq, Eq, Structural)]
pub struct Duration {
    nanos: u128,
}

impl View for Duration {
    type V = int;

    /// The number of nanoseconds.
    closed spec fn view(&self) -> int {
        self.nanos as int
    }
}

impl Duration {
    #[verifier::type_invariant]
    spec fn in_range(self) -> bool {
        self.nanos <= MAX_NANOS
    }

    /// The empty duration.
    pub fn zero() -> (r: Duration)
        ensures
            r@ == 0,
    {
        Duration { nanos: 0 }
    }

    /// The largest duration.
    pub fn max_value() -> (r: Duration)
        ensures
            r@ == MAX_NANOS,
    {
        Duration { nanos: MAX_NANOS }
    }

    pub fn from_nanos(nanos: u64) -> (r: Duration)
        ensures
            r@ == nanos,
    {
        Duration { nanos: nanos as u128 }
    }

    pub fn from_micros(micros: u64) -> (r: Duration)
        ensures
            r@ == micros * 1000,
    {
        Duration { nanos: micros as u128 * 1000 }
    }

    pub fn from_millis(millis: u64) -> (r: Duration)
        ensures
            r@ == millis * 1_000_000,
    {
        Duration { nanos: millis as u128 * 1_000_000 }
    }

    /// The duration of `nanos` nanoseconds, when it is in range.
    pub fn from_nanos_u128(nanos: u128) -> (r: Duration)
        requires
            nanos <= MAX_NANOS,
        ensures
            r@ == nanos,
    {
        Duration { nanos }
    }

    pub fn as_nanos(&self) -> (r: u128)
        ensures
            r == self@,
            r <= MAX_NANOS,
    {
        proof {
            use_type_invariant(self);
        }
        self.nanos
    }

    /// Whole microseconds.
    pub fn as_micros(&self) -> (r: u128)
        ensures
            r == self@ / 1000,
    {
        self.nanos / 1000
    }

    /// `self - other`, or zero when `other` is longer.
    pub fn saturating_sub(self, other: Duration) -> (r: Duration)
        ensures
            r@ == if self@ >= other@ {
                self@ - other@
            } else {
                0
            },
    {
        proof {
            use_type_invariant(self);
        }
        if self.nanos >= other.nanos {
            Duration { nanos: self.nanos - other.nanos }
        } else {
            Duration { nanos: 0 }
        }
    }

    /// `self + other`; the sum must be in range (it overflows otherwise).
    pub fn add(self, other: Duration) -> (r: Duration)
        requires
            self@ + other@ <= MAX_NANOS,
        ensures
            r@ == self@ + other@,
    {
        Duration { nanos: self.nanos + other.nanos }
    }

    pub fn min(self, other: Duration) -> (r: Duration)
        ensures
            r@ == if self@ <= other@ {
                self@
            } else {
                other@
            },
    {
        if self.nanos <= other.nanos {
            self
        } else {
            other
        }
    }

    pub fn max(self, other: Duration) -> (r: Duration)
        ensures
            r@ == if self@ >= other@ {
                self@
            } else {
                other@
            },
    {
        if self.nanos >= other.nanos {
            self
        } else {
            other
        }
    }

    /// `self` is strictly longer than `other`.
    pub fn gt(&self, other: &Duration) -> (r: bool)
        ensures
            r == (self@ > other@),
    {
        self.nanos > other.nanos
    }
}

} // verus!
