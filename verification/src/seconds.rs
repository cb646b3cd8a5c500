//! Fixed-point representation of a time offset.
//!
//! A `Seconds` value holds a whole number of milliseconds. The parser only
//! produces non-negative values; negative values can be constructed
//! directly and are accepted by the range validator.

use vstd::prelude::*;

verus! {

/// A time offset, held as a whole number of milliseconds.
#[derive(Clone, Copy, Debug, PartialEq, Eq, Structural)]
pub struct Seconds {
    pub millis: i64,
}

impl Seconds {
    /// The zero offset.
    pub fn zero() -> (r: Seconds)
        ensures
            r.millis == 0,
    {
        Seconds { millis: 0 }
    }

    /// An offset of `millis` milliseconds.
    pub fn from_millis(millis: i64) -> (r: Seconds)
        ensures
            r.millis == millis,
    {
        Seconds { millis }
    }

    /// An offset of `secs` whole seconds.
    pub fn from_secs(secs: i64) -> (r: Seconds)
        requires
            -9_223_372_036_854_775 <= secs <= 9_223_372_036_854_775,
        ensures
            r.millis == secs * 1000,
    {
        Seconds { millis: secs * 1000 }
    }

    /// The offset in milliseconds.
    pub fn as_millis(&self) -> (r: i64)
        ensures
            r == self.millis,
    {
        self.millis
    }

    /// The whole-second part, truncated toward zero for non-negative values.
    pub fn whole_secs(&self) -> (r: i64)
        requires
            self.millis >= 0,
        ensures
            r == self.millis / 1000,
    {
        self.millis / 1000
    }
}

} // verus!
