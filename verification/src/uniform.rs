//! Uniform axis: `num` equally wide half-open bins covering the tick
//! range `[low, high)`, with two extra slots for underflow and
//! overflow.
//!
//! Because the bins are equally wide, the bin of a value is computed
//! analytically in O(1): a value `v` with `low <= v < high` lands in
//! bin `floor((v - low) * num / (high - low))`, which equals
//! `floor((v - low) / step)` for the real step `(high - low) / num`.
//! The upper boundary is exclusive: `v == high` counts as overflow,
//! matching the half-open interior bins.

use vstd::arithmetic::div_mod::{
    lemma_div_by_multiple,
    lemma_div_is_ordered,
    lemma_div_pos_is_pos,
    lemma_multiply_divide_lt,
};
use vstd::prelude::*;

use crate::axis::AxisError;

verus! {

/// An axis of `num` equally wide bins over `[low, high)` ticks.
///
/// Bin layout: `[bin_0 .. bin_{num-1}, underflow, overflow]`, so the
/// flow-inclusive bin count is `num + 2`.
#[derive(Clone, Copy, PartialEq, Eq, Structural, Debug)]
pub struct Uniform {
    pub low: i64,
    pub high: i64,
    pub num: usize,
}

impl Uniform {
    /// Construction invariant: at least one bin, a positive range, and
    /// room in `usize` for the two flow slots.
    pub open spec fn wf(self) -> bool {
        &&& 1 <= self.num <= usize::MAX - 2
        &&& self.low < self.high
        &&& self.high - self.low <= i64::MAX
    }

    /// The bin index of a value, as an unbounded integer: underflow
    /// and overflow slots for out-of-range values, and the analytic
    /// floor formula for the interior.
    pub open spec fn index_spec(self, v: int) -> int {
        if v < self.low {
            self.num as int
        } else if v >= self.high {
            self.num + 1
        } else {
            (v - self.low) * (self.num as int) / (self.high - self.low)
        }
    }

    /// The number of bins, with or without the two flow slots.
    pub open spec fn num_bins_spec(self, flow: bool) -> int {
        if flow {
            self.num + 2
        } else {
            self.num as int
        }
    }

    /// Builds a uniform axis. Fails with `InvalidNumberOfBins` when
    /// `num == 0` and with `InvalidStepSize` when the range `[start,
    /// stop)` is empty or reversed, so that the step would not be
    /// positive.
    pub fn new(num: usize, start: i64, stop: i64) -> (r: Result<Self, AxisError>)
        requires
            num <= usize::MAX - 2,
            stop - start <= i64::MAX,
        ensures
            r is Ok <==> 1 <= num && start < stop,
            r matches Ok(a) ==> a.low == start && a.high == stop && a.num == num && a.wf(),
            num == 0 ==> r == Result::<Self, AxisError>::Err(AxisError::InvalidNumberOfBins),
            num >= 1 && stop <= start ==> r == Result::<Self, AxisError>::Err(
                AxisError::InvalidStepSize,
            ),
    {
        if num == 0 {
            return Err(AxisError::InvalidNumberOfBins);
        }
        if stop <= start {
            return Err(AxisError::InvalidStepSize);
        }
        Ok(Self { low: start, high: stop, num })
    }

    /// Maps a tick value to its bin index. Out-of-range values resolve
    /// to the underflow or overflow slot; indexing never fails.
    pub fn index(&self, value: i64) -> (r: usize)
        requires
            self.wf(),
        ensures
            r == self.index_spec(value as int),
            r < self.num_bins_spec(true),
    {
        if value < self.low {
            self.underflow()
        } else if value >= self.high {
            self.overflow()
        } else {
            let off: i128 = value as i128 - self.low as i128;
            let width: i128 = self.high as i128 - self.low as i128;
            proof {
                let offi = value - self.low;
                let w = self.high - self.low;
                let n = self.num as int;
                assert(0 <= offi * n <= i128::MAX) by (nonlinear_arith)
                    requires
                        0 <= offi <= i64::MAX - 1,
                        0 <= n <= usize::MAX - 2,
                ;
                assert(offi * n < w * n) by (nonlinear_arith)
                    requires
                        offi < w,
                        n >= 1,
                        offi >= 0,
                ;
                lemma_div_pos_is_pos(offi * n, w);
                lemma_multiply_divide_lt(offi * n, w, n);
            }
            let idx: i128 = off * (self.num as i128) / width;
            idx as usize
        }
    }

    /// The number of bins; `flow` includes the underflow and overflow
    /// slots.
    pub fn num_bins(&self, flow: bool) -> (r: usize)
        requires
            self.wf(),
        ensures
            r == self.num_bins_spec(flow),
    {
        if flow {
            self.num + 2
        } else {
            self.num
        }
    }

    /// The index of the underflow slot.
    pub fn underflow(&self) -> (r: usize)
        requires
            self.wf(),
        ensures
            r == self.num,
    {
        self.num_bins(true) - 2
    }

    /// The index of the overflow slot.
    pub fn overflow(&self) -> (r: usize)
        requires
            self.wf(),
        ensures
            r == self.num + 1,
    {
        self.num_bins(true) - 1
    }
}

/// Boundary behavior of uniform binning, for any well-formed axis:
/// the lower edge lands in bin 0; every value below `low` underflows;
/// every value at or above `high` overflows (the upper boundary is
/// exclusive); and whenever each bin is at least one tick wide, the
/// last interior tick `high - 1` lands in the last bin `num - 1`.
pub proof fn lemma_uniform_boundaries(a: Uniform)
    requires
        a.wf(),
    ensures
        a.index_spec(a.low as int) == 0,
        forall|v: int| v < a.low ==> a.index_spec(v) == a.num,
        forall|v: int| v >= a.high ==> a.index_spec(v) == a.num + 1,
        a.num <= a.high - a.low ==> a.index_spec(a.high - 1) == a.num - 1,
{
    let n = a.num as int;
    let w = a.high - a.low;
    assert(a.index_spec(a.low as int) == 0) by {
        assert(0 * n == 0) by (nonlinear_arith);
        assert(0 * n < w * n) by (nonlinear_arith)
            requires
                w >= 1 && n >= 1,
        ;
        lemma_div_pos_is_pos(0 * n, w);
        lemma_multiply_divide_lt(0 * n, w, n);
    }
    if n <= w {
        assert(a.index_spec(a.high - 1) == n - 1) by {
            assert((w - 1) * n < w * n) by (nonlinear_arith)
                requires
                    w >= 1 && n >= 1,
            ;
            lemma_multiply_divide_lt((w - 1) * n, w, n);
            assert((n - 1) * w <= (w - 1) * n) by (nonlinear_arith)
                requires
                    n <= w,
            ;
            lemma_div_by_multiple(n - 1, w);
            lemma_div_is_ordered((n - 1) * w, (w - 1) * n, w);
        }
    }
}

} // verus!
