//! Bin geometry: the value types one axis slot is made of.
//!
//! `Interval` is a half-open continuous bin `[low, high)` over
//! fixed-point tick coordinates; `SingleValue` is a discrete bin
//! holding one key (an integer or a category name).

use vstd::prelude::*;

verus! {

/// A continuous bin covering the half-open tick range `[low, high)`.
#[derive(Clone, Copy, PartialEq, Eq, Structural, Debug)]
pub struct Interval {
    pub low: i64,
    pub high: i64,
}

/// Integer division by two truncated toward zero, as the machine
/// computes it.
pub open spec fn div2_trunc(x: int) -> int {
    if x >= 0 {
        x / 2
    } else {
        -((-x) / 2)
    }
}

impl Interval {
    pub fn new(low: i64, high: i64) -> (r: Self)
        requires
            low < high,
        ensures
            r.low == low,
            r.high == high,
    {
        Self { low, high }
    }

    /// The midpoint of the bin, rounded toward zero.
    pub fn center(&self) -> (r: i64)
        ensures
            r == div2_trunc(self.low + self.high),
    {
        let sum: i128 = self.low as i128 + self.high as i128;
        let mid: i128 = sum / 2;
        assert(self.low <= div2_trunc(self.low + self.high) <= self.high || self.high
            <= div2_trunc(self.low + self.high) <= self.low);
        mid as i64
    }

    /// The width of the bin.
    pub fn width(&self) -> (r: i64)
        requires
            self.low < self.high,
            self.high - self.low <= i64::MAX,
        ensures
            r == self.high - self.low,
    {
        self.high - self.low
    }
}

/// A discrete bin holding exactly one key.
#[derive(Clone, Copy, PartialEq, Eq, Structural, Debug)]
pub struct SingleValue<V> {
    pub value: V,
}

impl<V> SingleValue<V> {
    pub fn new(value: V) -> (r: Self)
        ensures
            r.value == value,
    {
        Self { value }
    }
}

} // verus!
