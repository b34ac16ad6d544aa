//! Dense backend: the full flow-inclusive bin grid as one flat,
//! zero-initialized vector.
//!
//! Memory is proportional to the total bin count, fills and reads are
//! O(1) after addressing. The vector length is fixed at construction
//! to the product of the axes' flow-inclusive bin counts.

use vstd::pervasive::VecAdditionalExecFns;
use vstd::prelude::*;

use crate::axis::Axes;
use crate::hist::{
    axes_wf,
    cells_wf,
    grid_addrs,
    fill_model,
    num_bins_of,
    product,
    sizes_of,
    stride_index_of,
    stride_spec,
    zero_cells,
    HistError,
    Histogram,
};
use crate::storage::{
    acc_fits,
    acc_val,
    add_val,
    delta_val,
    matches_kind,
    zero_val,
    Storage,
    StorageType,
    StoreVal,
};

verus! {

/// A histogram whose data lives in one flat vector, one slot per
/// flow-inclusive bin of the Cartesian product of its axes.
#[derive(Debug)]
pub struct VecHist {
    pub axes: Vec<Axes>,
    pub data: Vec<Storage>,
    pub storage: StorageType,
}

impl VecHist {
    /// Builds a dense histogram over the given axes, eagerly sized to
    /// the full flow-inclusive bin grid and zero-initialized.
    pub fn new(axes: Vec<Axes>, storage: StorageType) -> (r: Self)
        requires
            axes_wf(axes@),
        ensures
            r.inv(),
            r.axes_seq() == axes@,
            r.st_kind() == storage,
            r.cells() == zero_cells(storage),
            r.materialized() == grid_addrs(product(sizes_of(axes@, true))),
    {
        let dims = num_bins_of(&axes, true);
        let init_val = storage.zero();
        let mut data: Vec<Storage> = Vec::new();
        let mut i: usize = 0;
        while i < dims
            invariant
                0 <= i <= dims,
                data@.len() == i,
                init_val@ == zero_val(storage),
                forall|j: int| 0 <= j < i ==> (#[trigger] data@[j]) == init_val,
            decreases dims - i,
        {
            data.push(init_val);
            i += 1;
        }
        let r = VecHist { axes, data, storage };
        proof {
            assert(r.cells() =~= zero_cells(storage));
        }
        r
    }
}

impl Histogram for VecHist {
    open spec fn axes_seq(&self) -> Seq<Axes> {
        self.axes@
    }

    open spec fn st_kind(&self) -> StorageType {
        self.storage
    }

    open spec fn cells(&self) -> Map<int, StoreVal> {
        Map::new(
            |j: int| true,
            |j: int|
                if 0 <= j < self.data@.len() {
                    self.data@[j]@
                } else {
                    zero_val(self.storage)
                },
        )
    }

    open spec fn materialized(&self) -> Set<int> {
        grid_addrs(self.data@.len() as int)
    }

    open spec fn inv(&self) -> bool {
        &&& axes_wf(self.axes@)
        &&& self.data@.len() == product(sizes_of(self.axes@, true))
        &&& forall|j: int|
            0 <= j < self.data@.len() ==> matches_kind((#[trigger] self.data@[j])@, self.storage)
    }

    proof fn inv_facts(&self) {
        assert forall|j: int| self.cells().dom().contains(j) by {
            assert(self.cells().dom() =~= Set::new(|j: int| true));
        }
        assert forall|j: int| matches_kind(#[trigger] self.cells()[j], self.storage) by {
            if !(0 <= j < self.data@.len()) {
                assert(self.cells()[j] == zero_val(self.storage));
            }
        }
        assert(cells_wf(self.cells(), self.st_kind()));
    }

    fn get_axes(&self) -> (r: &Vec<Axes>) {
        &self.axes
    }

    fn get_bin(&self, idx: usize) -> (r: Storage) {
        if idx < self.data.len() {
            self.data[idx]
        } else {
            self.storage.zero()
        }
    }

    /// Dense fills accumulate in place: the vector keeps its length,
    /// only the slot at the strided address changes, and a mismatched
    /// fill leaves the histogram untouched.
    fn fill(&mut self, indices: &Vec<usize>, weight: i64) -> (r: Result<(), HistError>)
        ensures
            indices@.len() == old(self).axes_seq().len() ==> ({
                let flat = stride_spec(sizes_of(old(self).axes@, true), indices@);
                &&& final(self).data@.len() == old(self).data@.len()
                &&& forall|p: int|
                    0 <= p < old(self).data@.len() && p != flat ==> final(self).data@[p] == old(
                        self,
                    ).data@[p]
                &&& final(self).data@[flat]@ == acc_val(
                    old(self).data@[flat]@,
                    old(self).storage,
                    weight as int,
                )
            }),
            indices@.len() != old(self).axes_seq().len() ==> *final(self) == *old(self),
    {
        if indices.len() != self.axes.len() {
            return Err(
                HistError::AxesValuesMismatch { nvalues: indices.len(), naxes: self.axes.len() },
            );
        }
        let bin_idx = match stride_index_of(&self.axes, indices) {
            Ok(f) => f,
            Err(e) => return Err(e),
        };
        let ghost flat = stride_spec(sizes_of(self.axes@, true), indices@);
        let delta = self.storage.delta(weight);
        let cur = self.data[bin_idx];
        proof {
            assert(matches_kind(cur@, self.storage));
            assert(acc_fits(old(self).cells()[flat], self.storage, weight as int));
            assert(old(self).cells()[flat] == cur@);
            assert(add_val(cur@, delta_val(self.storage, weight as int)) == acc_val(
                cur@,
                self.storage,
                weight as int,
            ));
        }
        self.data.set(bin_idx, cur.add(delta));
        proof {
            assert(self.cells() =~= fill_model(
                old(self).cells(),
                self.storage,
                flat,
                weight as int,
            ));
            assert(self.materialized() =~= old(self).materialized().insert(flat));
        }
        Ok(())
    }
}

} // verus!
