//! Variable axis: contiguous half-open bins `[e_i, e_{i+1})` built
//! from an explicit, strictly increasing list of tick edges, with two
//! extra slots for underflow and overflow.
//!
//! The bin of an in-range value is found by binary search over the
//! intervals. As on the uniform axis, the upper boundary is exclusive:
//! a value at or above the last edge counts as overflow.

use vstd::prelude::*;

use crate::axis::AxisError;
use crate::bin::Interval;

verus! {

/// An axis of contiguous, strictly increasing half-open bins.
///
/// Bin layout: `[bin_0 .. bin_{n-1}, underflow, overflow]`, so the
/// flow-inclusive bin count is `n + 2`.
#[derive(Clone, PartialEq, Eq, Debug)]
pub struct Variable {
    pub bins: Vec<Interval>,
}

/// Whether a sequence of intervals forms a contiguous, strictly
/// increasing partition: every bin is non-empty and each bin's upper
/// edge is the next bin's lower edge.
pub open spec fn contiguous_bins(s: Seq<Interval>) -> bool {
    &&& forall|i: int| 0 <= i < s.len() ==> s[i].low < s[i].high
    &&& forall|i: int| 1 <= i < s.len() ==> (#[trigger] s[i].low) == s[i - 1].high
}

/// The index of the first interval whose upper edge lies above `v`.
/// For a contiguous partition that contains `v`, this is the bin of
/// `v` (see `lemma_find_spec_contains`).
pub open spec fn find_spec(s: Seq<Interval>, v: int) -> int
    decreases s.len(),
{
    if s.len() == 0 {
        0
    } else if v < s[0].high {
        0
    } else {
        1 + find_spec(s.subrange(1, s.len() as int), v)
    }
}

/// Whether a sequence of ticks is strictly increasing.
pub open spec fn strictly_increasing(s: Seq<i64>) -> bool {
    forall|i: int| 0 <= i < s.len() - 1 ==> s[i] < #[trigger] s[i + 1]
}

impl Variable {
    /// Construction invariant: at least one bin, a contiguous strictly
    /// increasing partition, and room in `usize` for the flow slots.
    pub open spec fn wf(self) -> bool {
        &&& 1 <= self.bins@.len() <= usize::MAX - 2
        &&& contiguous_bins(self.bins@)
    }

    /// The bin index of a value: underflow and overflow slots for
    /// out-of-range values, and the containing bin for the interior.
    pub open spec fn index_spec(self, v: int) -> int {
        if v < self.bins@[0].low {
            self.bins@.len() as int
        } else if v >= self.bins@[self.bins@.len() - 1].high {
            self.bins@.len() + 1int
        } else {
            find_spec(self.bins@, v)
        }
    }

    /// The number of bins, with or without the two flow slots.
    pub open spec fn num_bins_spec(self, flow: bool) -> int {
        if flow {
            self.bins@.len() + 2int
        } else {
            self.bins@.len() as int
        }
    }

    /// Builds a variable axis from its bin edges. Fails with
    /// `InvalidNumberOfBinEdges` when fewer than two edges are given
    /// and with `FailedToSortBins` when the edges are not strictly
    /// increasing.
    pub fn new(edges: Vec<i64>) -> (r: Result<Self, AxisError>)
        requires
            edges@.len() <= usize::MAX - 1,
        ensures
            r is Ok <==> edges@.len() >= 2 && strictly_increasing(edges@),
            r matches Ok(a) ==> {
                &&& a.wf()
                &&& a.bins@.len() == edges@.len() - 1
                &&& forall|i: int|
                    0 <= i < a.bins@.len() ==> (#[trigger] a.bins@[i]).low == edges@[i]
                        && a.bins@[i].high == edges@[i + 1]
            },
            edges@.len() < 2 ==> r == Result::<Self, AxisError>::Err(
                AxisError::InvalidNumberOfBinEdges,
            ),
            edges@.len() >= 2 && !strictly_increasing(edges@) ==> r == Result::<
                Self,
                AxisError,
            >::Err(AxisError::FailedToSortBins),
    {
        if edges.len() < 2 {
            return Err(AxisError::InvalidNumberOfBinEdges);
        }
        let n = edges.len();
        let mut i: usize = 0;
        while i < n - 1
            invariant
                n == edges@.len(),
                2 <= n <= usize::MAX - 1,
                0 <= i <= n - 1,
                forall|j: int| 0 <= j < i ==> edges@[j] < #[trigger] edges@[j + 1],
            decreases n - 1 - i,
        {
            if edges[i] >= edges[i + 1] {
                return Err(AxisError::FailedToSortBins);
            }
            i += 1;
        }
        let mut bins: Vec<Interval> = Vec::new();
        let mut k: usize = 0;
        while k < n - 1
            invariant
                n == edges@.len(),
                2 <= n <= usize::MAX - 1,
                0 <= k <= n - 1,
                strictly_increasing(edges@),
                bins@.len() == k,
                forall|j: int|
                    0 <= j < k ==> (#[trigger] bins@[j]).low == edges@[j] && bins@[j].high
                        == edges@[j + 1],
            decreases n - 1 - k,
        {
            bins.push(Interval { low: edges[k], high: edges[k + 1] });
            k += 1;
        }
        let axis = Variable { bins };
        proof {
            assert forall|i: int| 0 <= i < axis.bins@.len() - 1 implies axis.bins@[i].high == (
            #[trigger] axis.bins@[i + 1]).low by {
                assert(axis.bins@[i].high == edges@[i + 1]);
            }
        }
        Ok(axis)
    }

    /// Maps a tick value to its bin index by binary search. Out-of-range
    /// values resolve to the underflow or overflow slot; indexing never
    /// fails.
    pub fn index(&self, value: i64) -> (r: usize)
        requires
            self.wf(),
        ensures
            r == self.index_spec(value as int),
            r < self.num_bins_spec(true),
    {
        let n = self.bins.len();
        if value < self.bins[0].low {
            return self.underflow();
        }
        if value >= self.bins[n - 1].high {
            return self.overflow();
        }
        let mut lo: usize = 0;
        let mut hi: usize = n;
        while hi - lo > 1
            invariant
                self.wf(),
                n == self.bins@.len(),
                0 <= lo < hi <= n,
                self.bins@[lo as int].low <= value,
                value < self.bins@[hi - 1].high,
            decreases hi - lo,
        {
            let mid = lo + (hi - lo) / 2;
            if value < self.bins[mid].low {
                proof {
                    assert(self.bins@[mid as int].low == self.bins@[mid - 1].high);
                }
                hi = mid;
            } else {
                lo = mid;
            }
        }
        proof {
            lemma_find_spec_contains(self.bins@, value as int);
            lemma_bin_unique(self.bins@, value as int, lo as int, find_spec(self.bins@, value as int));
        }
        lo
    }

    /// The number of bins; `flow` includes the underflow and overflow
    /// slots.
    pub fn num_bins(&self, flow: bool) -> (r: usize)
        requires
            self.wf(),
        ensures
            r == self.num_bins_spec(flow),
    {
        if flow {
            self.bins.len() + 2
        } else {
            self.bins.len()
        }
    }

    /// The index of the underflow slot.
    pub fn underflow(&self) -> (r: usize)
        requires
            self.wf(),
        ensures
            r == self.bins@.len(),
    {
        self.num_bins(true) - 2
    }

    /// The index of the overflow slot.
    pub fn overflow(&self) -> (r: usize)
        requires
            self.wf(),
        ensures
            r == self.bins@.len() + 1,
    {
        self.num_bins(true) - 1
    }
}

/// In a contiguous partition, bin edges are ordered: an earlier bin
/// ends no later than a later bin begins.
pub proof fn lemma_bin_order(s: Seq<Interval>, i: int, j: int)
    requires
        contiguous_bins(s),
        0 <= i < j < s.len(),
    ensures
        s[i].high <= s[j].low,
    decreases j - i,
{
    if j == i + 1 {
        assert(s[j].low == s[j - 1].high);
    } else {
        lemma_bin_order(s, i, j - 1);
        assert(s[j].low == s[j - 1].high);
    }
}

/// In a contiguous partition, a value can lie in at most one bin.
pub proof fn lemma_bin_unique(s: Seq<Interval>, v: int, i: int, j: int)
    requires
        contiguous_bins(s),
        0 <= i < s.len(),
        0 <= j < s.len(),
        s[i].low <= v < s[i].high,
        s[j].low <= v < s[j].high,
    ensures
        i == j,
{
    if i < j {
        lemma_bin_order(s, i, j);
    }
    if j < i {
        lemma_bin_order(s, j, i);
    }
}

/// For a value covered by a contiguous partition, `find_spec` returns
/// the bin that contains it.
pub proof fn lemma_find_spec_contains(s: Seq<Interval>, v: int)
    requires
        contiguous_bins(s),
        s.len() >= 1,
        s[0].low <= v,
        v < s[s.len() - 1].high,
    ensures
        0 <= find_spec(s, v) < s.len(),
        s[find_spec(s, v)].low <= v < s[find_spec(s, v)].high,
    decreases s.len(),
{
    if v < s[0].high {
    } else {
        let tail = s.subrange(1, s.len() as int);
        assert(s.len() >= 2);
        assert(tail[0].low == s[0].high);
        lemma_find_spec_contains(tail, v);
        assert(s[1 + find_spec(tail, v)] == tail[find_spec(tail, v)]);
    }
}

/// Every interior bin edge indexes to its own bin: for each bin `i`,
/// the lower edge `e_i` satisfies `index(e_i) == i`. (The final edge
/// `e_n` is the exclusive upper boundary and overflows instead.)
pub proof fn lemma_variable_edge_index(a: Variable, i: int)
    requires
        a.wf(),
        0 <= i < a.bins@.len(),
    ensures
        a.index_spec(a.bins@[i].low as int) == i,
{
    let s = a.bins@;
    let v = s[i].low as int;
    if i > 0 {
        lemma_bin_order(s, 0, i);
    }
    if i < s.len() - 1 {
        lemma_bin_order(s, i, s.len() - 1);
    }
    lemma_find_spec_contains(s, v);
    lemma_bin_unique(s, v, i, find_spec(s, v));
}

/// Monotonic bin containment: over the covered range, a larger value
/// never lands in an earlier bin.
pub proof fn lemma_variable_index_monotone(a: Variable, v1: int, v2: int)
    requires
        a.wf(),
        a.bins@[0].low <= v1 <= v2,
        v2 < a.bins@[a.bins@.len() - 1].high,
    ensures
        a.index_spec(v1) <= a.index_spec(v2),
{
    let s = a.bins@;
    let i1 = find_spec(s, v1);
    let i2 = find_spec(s, v2);
    lemma_find_spec_contains(s, v1);
    lemma_find_spec_contains(s, v2);
    if i2 < i1 {
        lemma_bin_order(s, i2, i1);
    }
}

} // verus!
