//! Sparse map backend: only filled bins are stored, in a hash map
//! keyed by the flat bin address.
//!
//! Memory is proportional to the number of distinct bins filled;
//! fills and reads are expected O(1). Reading an absent key yields the
//! identity cell of the storage kind.

use std::collections::HashMap;

use vstd::prelude::*;

use crate::axis::Axes;
use crate::hist::{
    axes_wf,
    cells_wf,
    fill_model,
    sizes_of,
    stride_index_of,
    stride_spec,
    zero_cells,
    HistError,
    Histogram,
};
use crate::storage::{
    acc_fits,
    acc_val,
    add_val,
    delta_val,
    matches_kind,
    zero_val,
    Storage,
    StorageType,
    StoreVal,
};

verus! {

broadcast use vstd::std_specs::hash::group_hash_axioms;

/// A histogram whose data lives in a hash map from flat bin address
/// to cell; bins materialize on first fill.
#[derive(Debug)]
pub struct HashMapHist {
    pub axes: Vec<Axes>,
    pub data: HashMap<usize, Storage>,
    pub storage: StorageType,
}

impl HashMapHist {
    /// Builds an empty sparse histogram over the given axes.
    pub fn new(axes: Vec<Axes>, storage: StorageType) -> (r: Self)
        requires
            axes_wf(axes@),
        ensures
            r.inv(),
            r.axes_seq() == axes@,
            r.st_kind() == storage,
            r.cells() == zero_cells(storage),
            r.materialized() == Set::<int>::empty(),
            r.data@ == Map::<usize, Storage>::empty(),
    {
        let r = HashMapHist { axes, data: HashMap::new(), storage };
        proof {
            assert(r.cells() =~= zero_cells(storage));
            assert(r.materialized() =~= Set::<int>::empty());
        }
        r
    }
}

impl Histogram for HashMapHist {
    open spec fn axes_seq(&self) -> Seq<Axes> {
        self.axes@
    }

    open spec fn st_kind(&self) -> StorageType {
        self.storage
    }

    open spec fn cells(&self) -> Map<int, StoreVal> {
        Map::new(
            |j: int| true,
            |j: int|
                if 0 <= j <= usize::MAX && self.data@.contains_key(j as usize) {
                    self.data@[j as usize]@
                } else {
                    zero_val(self.storage)
                },
        )
    }

    open spec fn materialized(&self) -> Set<int> {
        Set::new(|j: int| 0 <= j <= usize::MAX && self.data@.contains_key(j as usize))
    }

    open spec fn inv(&self) -> bool {
        &&& axes_wf(self.axes@)
        &&& forall|k: usize|
            self.data@.contains_key(k) ==> matches_kind((#[trigger] self.data@[k])@, self.storage)
    }

    proof fn inv_facts(&self) {
        assert forall|j: int| self.cells().dom().contains(j) by {
            assert(self.cells().dom() =~= Set::new(|j: int| true));
        }
        assert forall|j: int| matches_kind(#[trigger] self.cells()[j], self.storage) by {
            if 0 <= j <= usize::MAX && self.data@.contains_key(j as usize) {
                assert(self.cells()[j] == self.data@[j as usize]@);
            } else {
                assert(self.cells()[j] == zero_val(self.storage));
            }
        }
        assert(cells_wf(self.cells(), self.st_kind()));
    }

    fn get_axes(&self) -> (r: &Vec<Axes>) {
        &self.axes
    }

    fn get_bin(&self, idx: usize) -> (r: Storage) {
        match self.data.get(&idx) {
            Some(v) => *v,
            None => self.storage.zero(),
        }
    }

    /// Sparse-map fills materialize lazily: the bin's entry is
    /// updated in place when present, and inserted (holding the
    /// accumulated increment) when absent, so the map holds exactly
    /// one entry per distinct bin ever filled. A mismatched fill
    /// leaves the histogram untouched.
    fn fill(&mut self, indices: &Vec<usize>, weight: i64) -> (r: Result<(), HistError>)
        ensures
            indices@.len() == old(self).axes_seq().len() ==> ({
                let flat = stride_spec(sizes_of(old(self).axes@, true), indices@);
                &&& final(self).data@ == old(self).data@.insert(
                    flat as usize,
                    final(self).data@[flat as usize],
                )
                &&& final(self).data@[flat as usize]@ == acc_val(
                    old(self).cells()[flat],
                    old(self).storage,
                    weight as int,
                )
                &&& final(self).data@.len() == old(self).data@.len() + (
                if old(self).data@.contains_key(flat as usize) {
                    0int
                } else {
                    1int
                })
            }),
            indices@.len() != old(self).axes_seq().len() ==> *final(self) == *old(self),
    {
        if indices.len() != self.axes.len() {
            return Err(
                HistError::AxesValuesMismatch { nvalues: indices.len(), naxes: self.axes.len() },
            );
        }
        let bin_idx = match stride_index_of(&self.axes, indices) {
            Ok(f) => f,
            Err(e) => return Err(e),
        };
        let ghost flat = stride_spec(sizes_of(self.axes@, true), indices@);
        let delta = self.storage.delta(weight);
        let cur = match self.data.get(&bin_idx) {
            Some(v) => *v,
            None => self.storage.zero(),
        };
        proof {
            assert(old(self).cells()[flat] == cur@);
            assert(acc_fits(old(self).cells()[flat], self.storage, weight as int));
            assert(add_val(cur@, delta_val(self.storage, weight as int)) == acc_val(
                cur@,
                self.storage,
                weight as int,
            ));
        }
        let nv = cur.add(delta);
        self.data.insert(bin_idx, nv);
        proof {
            assert(self.cells() =~= fill_model(
                old(self).cells(),
                self.storage,
                flat,
                weight as int,
            ));
            assert(self.materialized() =~= old(self).materialized().insert(flat));
            assert(self.data@.dom() =~= old(self).data@.dom().insert(bin_idx));
        }
        Ok(())
    }
}

} // verus!
