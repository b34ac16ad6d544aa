//! Sparse list backend: only filled bins are stored, as two parallel
//! growable arrays of flat addresses and cells.
//!
//! Memory is proportional to the number of distinct bins filled;
//! fills and reads scan the address array linearly. Deliberately
//! simple — a tradeoff favoring low memory over fill throughput when
//! few distinct bins are hit. Reading an address that was never
//! filled yields the identity cell of the storage kind.

use vstd::pervasive::VecAdditionalExecFns;
use vstd::prelude::*;

use crate::axis::Axes;
use crate::hist::{
    axes_wf,
    cells_wf,
    fill_model,
    sizes_of,
    stride_index_of,
    stride_spec,
    zero_cells,
    HistError,
    Histogram,
};
use crate::storage::{
    acc_fits,
    acc_val,
    add_val,
    delta_val,
    matches_kind,
    zero_val,
    Storage,
    StorageType,
    StoreVal,
};

verus! {

/// A histogram whose data lives in two parallel vectors: the flat
/// addresses of the filled bins and their cells, in fill order.
#[derive(Debug)]
pub struct SparseHist {
    pub axes: Vec<Axes>,
    pub data: Vec<Storage>,
    pub data_indices: Vec<usize>,
    pub storage: StorageType,
}

/// The cell at address `j`, found by scanning the address list from
/// position `p`: the first matching entry's cell, or the identity
/// cell when no entry matches.
pub open spec fn sparse_lookup_from(
    indices: Seq<usize>,
    data: Seq<Storage>,
    st: StorageType,
    j: int,
    p: int,
) -> StoreVal
    decreases indices.len() - p,
{
    if p < 0 || p >= indices.len() {
        zero_val(st)
    } else if indices[p] == j {
        data[p]@
    } else {
        sparse_lookup_from(indices, data, st, j, p + 1)
    }
}

/// Whether the stored addresses are pairwise distinct.
pub open spec fn distinct_indices(indices: Seq<usize>) -> bool {
    forall|a: int, b: int|
        #![trigger indices[a], indices[b]]
        0 <= a < b < indices.len() ==> indices[a] != indices[b]
}

impl SparseHist {
    /// Builds an empty sparse histogram over the given axes.
    pub fn new(axes: Vec<Axes>, storage: StorageType) -> (r: Self)
        requires
            axes_wf(axes@),
        ensures
            r.inv(),
            r.axes_seq() == axes@,
            r.st_kind() == storage,
            r.cells() == zero_cells(storage),
            r.materialized() == Set::<int>::empty(),
            r.data@ == Seq::<Storage>::empty(),
            r.data_indices@ == Seq::<usize>::empty(),
    {
        let r = SparseHist { axes, data: Vec::new(), data_indices: Vec::new(), storage };
        proof {
            assert(r.cells() =~= zero_cells(storage));
            assert(r.materialized() =~= Set::<int>::empty());
            assert(r.data@ =~= Seq::<Storage>::empty());
            assert(r.data_indices@ =~= Seq::<usize>::empty());
        }
        r
    }
}

impl Histogram for SparseHist {
    open spec fn axes_seq(&self) -> Seq<Axes> {
        self.axes@
    }

    open spec fn st_kind(&self) -> StorageType {
        self.storage
    }

    open spec fn cells(&self) -> Map<int, StoreVal> {
        Map::new(
            |j: int| true,
            |j: int| sparse_lookup_from(self.data_indices@, self.data@, self.storage, j, 0),
        )
    }

    open spec fn materialized(&self) -> Set<int> {
        Set::new(|j: int| 0 <= j <= usize::MAX && self.data_indices@.contains(j as usize))
    }

    open spec fn inv(&self) -> bool {
        &&& axes_wf(self.axes@)
        &&& self.data@.len() == self.data_indices@.len()
        &&& distinct_indices(self.data_indices@)
        &&& forall|p: int|
            0 <= p < self.data@.len() ==> matches_kind((#[trigger] self.data@[p])@, self.storage)
    }

    proof fn inv_facts(&self) {
        assert forall|j: int| self.cells().dom().contains(j) by {
            assert(self.cells().dom() =~= Set::new(|j: int| true));
        }
        assert forall|j: int| matches_kind(#[trigger] self.cells()[j], self.storage) by {
            lemma_sparse_lookup_kind(self.data_indices@, self.data@, self.storage, j, 0);
        }
        assert(cells_wf(self.cells(), self.st_kind()));
    }

    fn get_axes(&self) -> (r: &Vec<Axes>) {
        &self.axes
    }

    fn get_bin(&self, idx: usize) -> (r: Storage) {
        let n = self.data_indices.len();
        let mut p: usize = 0;
        while p < n
            invariant
                self.inv(),
                n == self.data_indices@.len(),
                0 <= p <= n,
                forall|q: int| 0 <= q < p ==> (#[trigger] self.data_indices@[q]) != idx,
            decreases n - p,
        {
            if self.data_indices[p] == idx {
                proof {
                    lemma_sparse_found(
                        self.data_indices@,
                        self.data@,
                        self.storage,
                        idx as int,
                        p as int,
                        0,
                    );
                }
                return self.data[p];
            }
            p += 1;
        }
        proof {
            lemma_sparse_missing(self.data_indices@, self.data@, self.storage, idx as int, 0);
        }
        self.storage.zero()
    }

    /// Sparse-list fills materialize lazily: a bin already present is
    /// accumulated in place at its position, and a new bin is appended
    /// as one `(address, increment)` pair at the end of both parallel
    /// vectors, so they hold exactly one entry per distinct bin ever
    /// filled, in first-fill order. A mismatched fill leaves the
    /// histogram untouched.
    #[verifier::loop_isolation(false)]
    fn fill(&mut self, indices: &Vec<usize>, weight: i64) -> (r: Result<(), HistError>)
        ensures
            indices@.len() == old(self).axes_seq().len() ==> ({
                let flat = stride_spec(sizes_of(old(self).axes@, true), indices@);
                let pre_indices = old(self).data_indices@;
                let pre_data = old(self).data@;
                let gained = acc_val(old(self).cells()[flat], old(self).storage, weight as int);
                &&& pre_indices.contains(flat as usize) ==> {
                    &&& final(self).data_indices@ == pre_indices
                    &&& exists|p: int|
                        {
                            &&& 0 <= p < pre_indices.len()
                            &&& (#[trigger] pre_indices[p]) == flat as usize
                            &&& final(self).data@ == pre_data.update(p, final(self).data@[p])
                            &&& final(self).data@[p]@ == gained
                        }
                }
                &&& !pre_indices.contains(flat as usize) ==> {
                    &&& final(self).data_indices@ == pre_indices.push(flat as usize)
                    &&& final(self).data@.len() == pre_data.len() + 1
                    &&& forall|q: int|
                        0 <= q < pre_data.len() ==> final(self).data@[q] == #[trigger] pre_data[q]
                    &&& final(self).data@[pre_data.len() as int]@ == gained
                }
            }),
            indices@.len() != old(self).axes_seq().len() ==> *final(self) == *old(self),
    {
        if indices.len() != self.axes.len() {
            return Err(
                HistError::AxesValuesMismatch { nvalues: indices.len(), naxes: self.axes.len() },
            );
        }
        let bin_idx = match stride_index_of(&self.axes, indices) {
            Ok(f) => f,
            Err(e) => return Err(e),
        };
        let ghost flat = stride_spec(sizes_of(self.axes@, true), indices@);
        let delta = self.storage.delta(weight);
        let n = self.data_indices.len();
        let mut p: usize = 0;
        while p < n
            invariant
                self.inv(),
                self == old(self),
                n == self.data_indices@.len(),
                0 <= p <= n,
                forall|q: int| 0 <= q < p ==> (#[trigger] self.data_indices@[q]) != bin_idx,
            decreases n - p,
        {
            if self.data_indices[p] == bin_idx {
                proof {
                    lemma_sparse_found(
                        self.data_indices@,
                        self.data@,
                        self.storage,
                        bin_idx as int,
                        p as int,
                        0,
                    );
                    assert(old(self).cells()[flat] == self.data@[p as int]@);
                    assert(acc_fits(old(self).cells()[flat], self.storage, weight as int));
                }
                let cur = self.data[p];
                proof {
                    assert(add_val(cur@, delta_val(self.storage, weight as int)) == acc_val(
                        cur@,
                        self.storage,
                        weight as int,
                    ));
                }
                let nv = cur.add(delta);
                self.data.set(p, nv);
                proof {
                    assert(self.data@ == old(self).data@.update(p as int, self.data@[p as int]));
                    assert(self.materialized() =~= old(self).materialized().insert(flat));
                    assert forall|j: int| #[trigger]
                        self.cells()[j] == fill_model(
                            old(self).cells(),
                            self.storage,
                            flat,
                            weight as int,
                        )[j] by {
                        lemma_sparse_update(
                            old(self).data_indices@,
                            old(self).data@,
                            self.storage,
                            p as int,
                            nv,
                            j,
                            0,
                        );
                        if j != flat {
                            lemma_sparse_agree_on_data_change(
                                old(self).data_indices@,
                                old(self).data@,
                                self.data@,
                                self.storage,
                                j,
                                0,
                            );
                        }
                    }
                    assert(self.cells() =~= fill_model(
                        old(self).cells(),
                        self.storage,
                        flat,
                        weight as int,
                    ));
                }
                return Ok(());
            }
            p += 1;
        }
        proof {
            lemma_sparse_missing(self.data_indices@, self.data@, self.storage, flat, 0);
            assert(old(self).cells()[flat] == zero_val(self.storage));
            assert(acc_fits(old(self).cells()[flat], self.storage, weight as int));
            assert(add_val(zero_val(self.storage), delta_val(self.storage, weight as int))
                == acc_val(zero_val(self.storage), self.storage, weight as int));
        }
        proof {
            assert(!self.data_indices@.contains(bin_idx));
        }
        let nv = self.storage.zero().add(delta);
        self.data_indices.push(bin_idx);
        self.data.push(nv);
        proof {
            assert forall|j: int|
                self.materialized().contains(j) == old(self).materialized().insert(flat).contains(
                    j,
                ) by {
                if 0 <= j <= usize::MAX {
                    if j == flat {
                        assert(self.data_indices@[self.data_indices@.len() - 1] == bin_idx);
                        assert(self.data_indices@.contains(j as usize));
                    } else {
                        assert(self.data_indices@.contains(j as usize) == old(
                            self,
                        ).data_indices@.contains(j as usize)) by {
                            if old(self).data_indices@.contains(j as usize) {
                                let q = choose|q: int|
                                    0 <= q < old(self).data_indices@.len() && old(
                                        self,
                                    ).data_indices@[q] == j as usize;
                                assert(self.data_indices@[q] == j as usize);
                            }
                            if self.data_indices@.contains(j as usize) {
                                let q = choose|q: int|
                                    0 <= q < self.data_indices@.len() && (#[trigger] self.data_indices@[q]) == j as usize;
                                assert(q < old(self).data_indices@.len());
                                assert(old(self).data_indices@[q] == j as usize);
                            }
                        }
                    }
                }
            }
            assert(self.materialized() =~= old(self).materialized().insert(flat));
            assert forall|j: int| #[trigger]
                self.cells()[j] == fill_model(
                    old(self).cells(),
                    self.storage,
                    flat,
                    weight as int,
                )[j] by {
                lemma_sparse_push(
                    old(self).data_indices@,
                    old(self).data@,
                    self.storage,
                    bin_idx,
                    nv,
                    j,
                    0,
                );
            }
            assert(self.cells() =~= fill_model(
                old(self).cells(),
                self.storage,
                flat,
                weight as int,
            ));
            assert forall|a: int, b: int|
                #![trigger self.data_indices@[a], self.data_indices@[b]]
                0 <= a < b < self.data_indices@.len() implies self.data_indices@[a]
                != self.data_indices@[b] by {
                if b == self.data_indices@.len() - 1 {
                    assert(old(self).data_indices@[a] != bin_idx);
                }
            }
        }
        Ok(())
    }
}

/// Every cell a lookup can return is of the storage kind, provided
/// the stored cells are.
pub proof fn lemma_sparse_lookup_kind(
    indices: Seq<usize>,
    data: Seq<Storage>,
    st: StorageType,
    j: int,
    q: int,
)
    requires
        data.len() == indices.len(),
        forall|p: int| 0 <= p < data.len() ==> matches_kind((#[trigger] data[p])@, st),
    ensures
        matches_kind(sparse_lookup_from(indices, data, st, j, q), st),
    decreases indices.len() - q,
{
    if 0 <= q < indices.len() && indices[q] != j {
        lemma_sparse_lookup_kind(indices, data, st, j, q + 1);
    }
}

/// If address `j` first occurs (at or after `q`) at position `p`, the
/// lookup from `q` returns that position's cell.
pub proof fn lemma_sparse_found(
    indices: Seq<usize>,
    data: Seq<Storage>,
    st: StorageType,
    j: int,
    p: int,
    q: int,
)
    requires
        data.len() == indices.len(),
        0 <= q <= p < indices.len(),
        indices[p] == j,
        forall|r: int| q <= r < p ==> (#[trigger] indices[r]) != j,
    ensures
        sparse_lookup_from(indices, data, st, j, q) == data[p]@,
    decreases indices.len() - q,
{
    if q < p {
        lemma_sparse_found(indices, data, st, j, p, q + 1);
    }
}

/// If address `j` occurs nowhere at or after `q`, the lookup from `q`
/// returns the identity cell.
pub proof fn lemma_sparse_missing(
    indices: Seq<usize>,
    data: Seq<Storage>,
    st: StorageType,
    j: int,
    q: int,
)
    requires
        0 <= q,
        forall|r: int| q <= r < indices.len() ==> (#[trigger] indices[r]) != j,
    ensures
        sparse_lookup_from(indices, data, st, j, q) == zero_val(st),
    decreases indices.len() - q,
{
    if q < indices.len() {
        lemma_sparse_missing(indices, data, st, j, q + 1);
    }
}

/// Replacing the cell at position `p` changes the lookup exactly at
/// that position's address (when the addresses are distinct).
pub proof fn lemma_sparse_update(
    indices: Seq<usize>,
    data: Seq<Storage>,
    st: StorageType,
    p: int,
    v: Storage,
    j: int,
    q: int,
)
    requires
        data.len() == indices.len(),
        0 <= p < data.len(),
        0 <= q,
        distinct_indices(indices),
    ensures
        sparse_lookup_from(indices, data.update(p, v), st, j, q) == if j == indices[p] && q <= p {
            v@
        } else {
            sparse_lookup_from(indices, data, st, j, q)
        },
    decreases indices.len() - q,
{
    if q < indices.len() {
        if indices[q] == j {
        } else {
            lemma_sparse_update(indices, data, st, p, v, j, q + 1);
        }
    }
}

/// Lookups of an address agree across two data arrays that agree at
/// every position holding that address.
pub proof fn lemma_sparse_agree_on_data_change(
    indices: Seq<usize>,
    data1: Seq<Storage>,
    data2: Seq<Storage>,
    st: StorageType,
    j: int,
    q: int,
)
    requires
        data1.len() == indices.len(),
        data2.len() == indices.len(),
        0 <= q,
        forall|r: int| 0 <= r < indices.len() && (#[trigger] indices[r]) == j ==> data1[r] == data2[r],
    ensures
        sparse_lookup_from(indices, data1, st, j, q) == sparse_lookup_from(
            indices,
            data2,
            st,
            j,
            q,
        ),
    decreases indices.len() - q,
{
    if q < indices.len() && indices[q] != j {
        lemma_sparse_agree_on_data_change(indices, data1, data2, st, j, q + 1);
    }
}

/// Appending an entry for a fresh address adds that address's cell
/// and leaves every other lookup unchanged.
pub proof fn lemma_sparse_push(
    indices: Seq<usize>,
    data: Seq<Storage>,
    st: StorageType,
    k: usize,
    v: Storage,
    j: int,
    q: int,
)
    requires
        data.len() == indices.len(),
        0 <= q <= indices.len(),
        forall|r: int| 0 <= r < indices.len() ==> (#[trigger] indices[r]) != k,
    ensures
        sparse_lookup_from(indices.push(k), data.push(v), st, j, q) == if j == k {
            v@
        } else {
            sparse_lookup_from(indices, data, st, j, q)
        },
    decreases indices.len() - q,
{
    if q == indices.len() {
        assert(indices.push(k)[q] == k);
        if j != k {
            assert(sparse_lookup_from(indices.push(k), data.push(v), st, j, q + 1) == zero_val(
                st,
            ));
        }
    } else {
        assert(indices.push(k)[q] == indices[q]);
        assert(data.push(v)[q] == data[q]);
        if indices[q] != j {
            lemma_sparse_push(indices, data, st, k, v, j, q + 1);
        }
    }
}

} // verus!
