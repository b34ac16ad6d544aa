//! Integer axis: a sorted list of distinct integer keys, each with its
//! own bin, found by exact-match binary search.
//!
//! Discrete axes have no separate underflow: a single reserved slot at
//! index 0 serves as the combined under-/overflow bin, and the key
//! bins sit at indices `1..=num`. Appending new keys would therefore
//! never renumber existing bins.

use vstd::prelude::*;

use crate::axis::AxisError;
use crate::bin::SingleValue;
use crate::variable::strictly_increasing;

verus! {

/// An axis of distinct, strictly increasing integer keys.
///
/// `bins[0]` is the reserved combined under-/overflow slot (its stored
/// value is unused and fixed to 0); `bins[j]` for `j >= 1` holds the
/// key of bin `j`.
#[derive(Clone, PartialEq, Eq, Debug)]
pub struct Integer {
    pub bins: Vec<SingleValue<i64>>,
}

impl Integer {
    /// Construction invariant: the reserved slot plus at least one
    /// key, with the keys strictly increasing.
    pub open spec fn wf(self) -> bool {
        &&& 2 <= self.bins@.len()
        &&& forall|i: int, j: int|
            #![trigger self.bins@[i].value, self.bins@[j].value]
            1 <= i < j < self.bins@.len() ==> self.bins@[i].value < self.bins@[j].value
    }

    /// Whether some key bin holds `v`.
    pub open spec fn has_key(self, v: i64) -> bool {
        exists|j: int| 1 <= j < self.bins@.len() && (#[trigger] self.bins@[j]).value == v
    }

    /// The bin index of key `v`: its key bin if the axis has it, else
    /// the reserved flow slot 0.
    pub open spec fn index_spec(self, v: i64) -> int {
        key_slot_from(self.bins@, v, 1)
    }

    /// The number of bins, with or without the reserved flow slot.
    pub open spec fn num_bins_spec(self, flow: bool) -> int {
        if flow {
            self.bins@.len() as int
        } else {
            self.bins@.len() - 1
        }
    }

    /// Builds an integer axis from its keys. Fails with
    /// `InvalidNumberOfBins` when no keys are given and with
    /// `FailedToSortBins` when the keys are not strictly increasing
    /// (the key list must already be sorted and duplicate-free).
    pub fn new(bins: Vec<i64>) -> (r: Result<Self, AxisError>)
        requires
            bins@.len() <= usize::MAX - 1,
        ensures
            r is Ok <==> bins@.len() >= 1 && strictly_increasing(bins@),
            r matches Ok(a) ==> {
                &&& a.wf()
                &&& a.bins@.len() == bins@.len() + 1
                &&& a.bins@[0].value == 0
                &&& forall|i: int|
                    0 <= i < bins@.len() ==> (#[trigger] a.bins@[i + 1]).value == bins@[i]
            },
            bins@.len() == 0 ==> r == Result::<Self, AxisError>::Err(
                AxisError::InvalidNumberOfBins,
            ),
            bins@.len() >= 1 && !strictly_increasing(bins@) ==> r == Result::<
                Self,
                AxisError,
            >::Err(AxisError::FailedToSortBins),
    {
        if bins.len() == 0 {
            return Err(AxisError::InvalidNumberOfBins);
        }
        let n = bins.len();
        let mut i: usize = 0;
        while i + 1 < n
            invariant
                n == bins@.len(),
                1 <= n <= usize::MAX - 1,
                0 <= i <= n - 1,
                forall|j: int| 0 <= j < i ==> bins@[j] < #[trigger] bins@[j + 1],
            decreases n - i,
        {
            if bins[i] >= bins[i + 1] {
                return Err(AxisError::FailedToSortBins);
            }
            i += 1;
        }
        let mut single_bins: Vec<SingleValue<i64>> = Vec::new();
        single_bins.push(SingleValue::new(0));
        let mut k: usize = 0;
        while k < n
            invariant
                n == bins@.len(),
                1 <= n <= usize::MAX - 1,
                0 <= k <= n,
                single_bins@.len() == k + 1,
                single_bins@[0].value == 0,
                forall|j: int| 0 <= j < k ==> (#[trigger] single_bins@[j + 1]).value == bins@[j],
            decreases n - k,
        {
            single_bins.push(SingleValue::new(bins[k]));
            k += 1;
        }
        let axis = Integer { bins: single_bins };
        proof {
            assert(strictly_increasing(bins@));
            assert forall|i: int, j: int|
                #![trigger axis.bins@[i].value, axis.bins@[j].value]
                1 <= i < j < axis.bins@.len() implies axis.bins@[i].value
                < axis.bins@[j].value by {
                assert(axis.bins@[(i - 1) + 1].value == bins@[i - 1]);
                assert(axis.bins@[(j - 1) + 1].value == bins@[j - 1]);
                lemma_increasing_total(bins@, i - 1, j - 1);
            }
        }
        Ok(axis)
    }

    /// Maps a key to its bin index by exact-match binary search; a key
    /// that is not on the axis resolves to the reserved flow slot 0.
    #[verifier::rlimit(30)]
    pub fn index(&self, value: i64) -> (r: usize)
        requires
            self.wf(),
        ensures
            r == self.index_spec(value),
            1 <= r < self.bins@.len() ==> self.bins@[r as int].value == value,
            r == 0 ==> !self.has_key(value),
            self.has_key(value) ==> 1 <= r,
            r < self.num_bins_spec(true),
    {
        let n = self.bins.len();
        let mut lo: usize = 1;
        let mut hi: usize = n;
        while lo < hi
            invariant
                self.wf(),
                n == self.bins@.len(),
                1 <= lo <= hi <= n,
                forall|j: int| 1 <= j < lo ==> (#[trigger] self.bins@[j]).value < value,
                forall|j: int| hi <= j < n ==> value < (#[trigger] self.bins@[j]).value,
            decreases hi - lo,
        {
            let mid = lo + (hi - lo) / 2;
            let k = self.bins[mid].value;
            if k == value {
                proof {
                    assert forall|j: int| 1 <= j < mid implies (#[trigger] self.bins@[j]).value
                        != value by {}
                    lemma_key_slot_found(self.bins@, value, mid as int, 1);
                }
                return mid;
            } else if k < value {
                lo = mid + 1;
            } else {
                hi = mid;
            }
        }
        proof {
            assert forall|j: int| 1 <= j < n implies (#[trigger] self.bins@[j]).value != value by {
                if j < lo {
                } else {
                }
            }
            lemma_key_slot_missing(self.bins@, value, 1);
        }
        self.overflow()
    }

    /// The number of bins; `flow` includes the reserved flow slot.
    pub fn num_bins(&self, flow: bool) -> (r: usize)
        requires
            self.wf(),
        ensures
            r == self.num_bins_spec(flow),
    {
        let num = self.bins.len() - 1;
        if flow {
            num + 1
        } else {
            num
        }
    }

    /// The index of the combined under-/overflow slot.
    pub fn underflow(&self) -> (r: usize)
        ensures
            r == 0,
    {
        0
    }

    /// The index of the combined under-/overflow slot.
    pub fn overflow(&self) -> (r: usize)
        ensures
            r == 0,
    {
        0
    }
}

/// The position of the first key bin at or after `k` holding `v`, or
/// the reserved flow slot 0 when no such bin exists.
pub open spec fn key_slot_from(bins: Seq<SingleValue<i64>>, v: i64, k: int) -> int
    decreases bins.len() - k,
{
    if k < 0 || k >= bins.len() {
        0
    } else if bins[k].value == v {
        k
    } else {
        key_slot_from(bins, v, k + 1)
    }
}

/// If `v` first occurs (at or after `k`) in bin `r`, its slot is `r`.
pub proof fn lemma_key_slot_found(bins: Seq<SingleValue<i64>>, v: i64, r: int, k: int)
    requires
        0 <= k <= r < bins.len(),
        bins[r].value == v,
        forall|j: int| k <= j < r ==> (#[trigger] bins[j]).value != v,
    ensures
        key_slot_from(bins, v, k) == r,
    decreases bins.len() - k,
{
    if k < r {
        lemma_key_slot_found(bins, v, r, k + 1);
    }
}

/// If `v` occurs in no key bin at or after `k`, its slot is the flow
/// slot 0.
pub proof fn lemma_key_slot_missing(bins: Seq<SingleValue<i64>>, v: i64, k: int)
    requires
        0 <= k,
        forall|j: int| k <= j < bins.len() ==> (#[trigger] bins[j]).value != v,
    ensures
        key_slot_from(bins, v, k) == 0,
    decreases bins.len() - k,
{
    if k < bins.len() {
        lemma_key_slot_missing(bins, v, k + 1);
    }
}

/// A strictly increasing sequence is totally ordered: any earlier
/// element is smaller than any later one.
pub proof fn lemma_increasing_total(s: Seq<i64>, i: int, j: int)
    requires
        strictly_increasing(s),
        0 <= i < j < s.len(),
    ensures
        s[i] < s[j],
    decreases j - i,
{
    if j == i + 1 {
        assert(s[i] < s[i + 1]);
    } else {
        lemma_increasing_total(s, i, j - 1);
        assert(s[j - 1] < s[(j - 1) + 1]);
    }
}

} // verus!
