//! A signed time value with microsecond resolution.

use vstd::prelude::*;

verus! {

/// Truncating millisecond count of a microsecond duration (rounded toward
/// zero, as the transport reports it).
pub open spec fn millis_of(microseconds: int) -> int {
    if microseconds >= 0 {
        microseconds / 1000
    } else {
        -((-microseconds) / 1000)
    }
}

/// A time value (a duration, possibly negative), counted in microseconds.
///
/// Used as an opaque timeout wherever a socket call may block.
#[derive(Debug, Clone, Copy, PartialEq, Eq, Structural)]
pub struct Time {
    pub microseconds: i64,
}

impl Default for Time {
    /// The zero duration.
    fn default() -> (r: Self)
        ensures
            r.microseconds == 0,
    {
        Self { microseconds: 0 }
    }
}

impl Time {
    /// Creates a time value from a number of microseconds.
    pub fn new(microseconds: i64) -> (r: Self)
        ensures
            r.microseconds == microseconds,
    {
        Self { microseconds }
    }

    /// Creates a time value from a number of milliseconds.
    pub fn milliseconds(amount: i32) -> (r: Self)
        ensures
            r.microseconds == amount * 1000,
    {
        Self { microseconds: (amount as i64) * 1000 }
    }

    /// Creates a time value from a number of microseconds.
    pub fn microseconds(amount: i64) -> (r: Self)
        ensures
            r.microseconds == amount,
    {
        Self { microseconds: amount }
    }

    /// The value as whole milliseconds, rounded toward zero.
    pub fn as_milliseconds(&self) -> (r: i32)
        requires
            i64::MIN < self.microseconds,
            i32::MIN <= millis_of(self.microseconds as int) <= i32::MAX,
        ensures
            r == millis_of(self.microseconds as int),
    {
        if self.microseconds >= 0 {
            ((self.microseconds as u64) / 1000) as i32
        } else {
            let positive: u64 = (-self.microseconds) as u64;
            -((positive / 1000) as i64) as i32
        }
    }

    /// The value as a number of microseconds.
    pub fn as_microseconds(&self) -> (r: i64)
        ensures
            r == self.microseconds,
    {
        self.microseconds
    }
}

} // verus!
