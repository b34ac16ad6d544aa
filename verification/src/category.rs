//! Category axis: a growable mapping from string-named bins to dense
//! integer indices.
//!
//! As on the integer axis, a single reserved slot at index 0 serves as
//! the combined under-/overflow bin: an unknown name resolves there.
//! The named bins sit at indices `1..=num` in insertion order, and
//! growing the axis appends, so previously issued indices never
//! change. One sentinel name is reserved for the flow slot and must
//! not collide with any user-supplied bin name.

use vstd::prelude::*;

use crate::axis::AxisError;

verus! {

/// The reserved sentinel name denoting the combined under-/overflow
/// slot.
pub open spec fn reserved_name() -> Seq<char> {
    "__overflow__"@
}

/// An axis of distinct named bins; `names[i]` is the name of bin
/// `i + 1`, and index 0 is the reserved flow slot.
#[derive(Clone, PartialEq, Eq, Debug)]
pub struct Category {
    pub names: Vec<String>,
}

/// The slot of name `v` in a name list: one past its position, or 0
/// (the flow slot) when the name does not occur.
pub open spec fn name_slot(names: Seq<String>, v: Seq<char>) -> int
    decreases names.len(),
{
    if names.len() == 0 {
        0
    } else if names[0]@ == v {
        1
    } else {
        let r = name_slot(names.subrange(1, names.len() as int), v);
        if r == 0 {
            0
        } else {
            1 + r
        }
    }
}

impl Category {
    /// Construction invariant: at least one named bin, all names
    /// distinct, and none colliding with the reserved sentinel.
    pub open spec fn wf(self) -> bool {
        &&& 1 <= self.names@.len() <= usize::MAX - 1
        &&& forall|i: int| 0 <= i < self.names@.len() ==> (#[trigger] self.names@[i])@
            != reserved_name()
        &&& forall|i: int, j: int|
            #![trigger self.names@[i], self.names@[j]]
            0 <= i < j < self.names@.len() ==> self.names@[i]@ != self.names@[j]@
    }

    /// Whether some bin carries name `v`.
    pub open spec fn has_name(self, v: Seq<char>) -> bool {
        exists|j: int| 0 <= j < self.names@.len() && (#[trigger] self.names@[j])@ == v
    }

    /// The number of bins, with or without the reserved flow slot.
    pub open spec fn num_bins_spec(self, flow: bool) -> int {
        if flow {
            self.names@.len() + 1int
        } else {
            self.names@.len() as int
        }
    }

    /// Builds a category axis from its bin names, which must be
    /// distinct and must not use the reserved sentinel name. Fails
    /// with `InvalidNumberOfBins` when no names are given.
    pub fn new(bins: Vec<String>) -> (r: Result<Self, AxisError>)
        requires
            bins@.len() <= usize::MAX - 1,
            forall|i: int| 0 <= i < bins@.len() ==> (#[trigger] bins@[i])@ != reserved_name(),
            forall|i: int, j: int|
                #![trigger bins@[i], bins@[j]]
                0 <= i < j < bins@.len() ==> bins@[i]@ != bins@[j]@,
        ensures
            r is Ok <==> bins@.len() >= 1,
            r matches Ok(a) ==> a.wf() && a.names@ == bins@,
            bins@.len() == 0 ==> r == Result::<Self, AxisError>::Err(
                AxisError::InvalidNumberOfBins,
            ),
    {
        if bins.len() == 0 {
            return Err(AxisError::InvalidNumberOfBins);
        }
        Ok(Self { names: bins })
    }

    /// Maps a name to its bin index by scanning the name list; an
    /// unknown name (the reserved sentinel included) resolves to the
    /// flow slot 0. Indexing never fails.
    pub fn index(&self, value: String) -> (r: usize)
        requires
            self.wf(),
        ensures
            r == name_slot(self.names@, value@),
            r < self.num_bins_spec(true),
            1 <= r ==> self.names@[r - 1]@ == value@,
            r == 0 ==> !self.has_name(value@),
    {
        let n = self.names.len();
        let mut k: usize = 0;
        while k < n
            invariant
                self.wf(),
                n == self.names@.len(),
                0 <= k <= n,
                forall|j: int| 0 <= j < k ==> (#[trigger] self.names@[j])@ != value@,
            decreases n - k,
        {
            if self.names[k] == value {
                proof {
                    lemma_name_slot_hit(self.names@, value@, k as int);
                }
                return k + 1;
            }
            k += 1;
        }
        proof {
            lemma_name_slot_miss(self.names@, value@);
        }
        0
    }

    /// Appends one new named bin. Existing bins keep their indices
    /// (see `lemma_grow_keeps_indices`). The new name must be fresh
    /// and must not use the reserved sentinel name.
    pub fn grow(&mut self, bin: String)
        requires
            old(self).wf(),
            old(self).names@.len() <= usize::MAX - 2,
            bin@ != reserved_name(),
            !old(self).has_name(bin@),
        ensures
            final(self).wf(),
            final(self).names@ == old(self).names@.push(bin),
    {
        proof {
            let pushed = old(self).names@.push(bin);
            assert forall|i: int, j: int|
                #![trigger pushed[i], pushed[j]]
                0 <= i < j < pushed.len() implies pushed[i]@ != pushed[j]@ by {
                if j < pushed.len() - 1 {
                } else {
                    assert(!(exists|q: int|
                        0 <= q < old(self).names@.len() && (#[trigger] old(self).names@[q])@
                            == bin@));
                }
            }
        }
        self.names.push(bin);
    }

    /// The number of bins; `flow` includes the reserved flow slot.
    pub fn num_bins(&self, flow: bool) -> (r: usize)
        requires
            self.wf(),
        ensures
            r == self.num_bins_spec(flow),
    {
        let num = self.names.len();
        if flow {
            num + 1
        } else {
            num
        }
    }

    /// The index of the combined under-/overflow slot.
    pub fn underflow(&self) -> (r: usize)
        ensures
            r == 0,
    {
        0
    }

    /// The index of the combined under-/overflow slot.
    pub fn overflow(&self) -> (r: usize)
        ensures
            r == 0,
    {
        0
    }
}

/// If `v` first occurs at position `k`, its slot is `k + 1`.
pub proof fn lemma_name_slot_hit(names: Seq<String>, v: Seq<char>, k: int)
    requires
        0 <= k < names.len(),
        names[k]@ == v,
        forall|j: int| 0 <= j < k ==> (#[trigger] names[j])@ != v,
    ensures
        name_slot(names, v) == k + 1,
    decreases names.len(),
{
    if k == 0 {
    } else {
        let tail = names.subrange(1, names.len() as int);
        assert(tail[k - 1]@ == v);
        assert forall|j: int| 0 <= j < k - 1 implies (#[trigger] tail[j])@ != v by {
            assert(tail[j] == names[j + 1]);
        }
        lemma_name_slot_hit(tail, v, k - 1);
    }
}

/// If `v` occurs nowhere, its slot is the flow slot 0.
pub proof fn lemma_name_slot_miss(names: Seq<String>, v: Seq<char>)
    requires
        forall|j: int| 0 <= j < names.len() ==> (#[trigger] names[j])@ != v,
    ensures
        name_slot(names, v) == 0,
    decreases names.len(),
{
    if names.len() > 0 {
        let tail = names.subrange(1, names.len() as int);
        assert forall|j: int| 0 <= j < tail.len() implies (#[trigger] tail[j])@ != v by {
            assert(tail[j] == names[j + 1]);
        }
        lemma_name_slot_miss(tail, v);
    }
}

/// Growing a category axis never renumbers: a name that already has a
/// bin keeps exactly the same index after a new name is appended.
pub proof fn lemma_grow_keeps_indices(names: Seq<String>, v: Seq<char>, b: String)
    requires
        name_slot(names, v) != 0,
    ensures
        name_slot(names.push(b), v) == name_slot(names, v),
    decreases names.len(),
{
    let pushed = names.push(b);
    if names.len() == 0 {
    } else if names[0]@ == v {
        assert(pushed[0]@ == v);
    } else {
        let tail = names.subrange(1, names.len() as int);
        assert(pushed.subrange(1, pushed.len() as int) =~= tail.push(b));
        lemma_grow_keeps_indices(tail, v, b);
    }
}

} // verus!
