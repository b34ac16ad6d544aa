//! The histogram engine: composition of axes, row-major strided
//! addressing, and the shared fill/read model that every storage
//! backend implements.
//!
//! The logical state of any histogram is a total map from flat bin
//! addresses to storage cells, `Map<int, StoreVal>`; a fresh histogram
//! maps every address to the identity cell, and one fill rewrites one
//! address by the accumulation algebra. The three backends (dense
//! vector, hash map, parallel sparse lists) each prove that their
//! concrete representation refines this one model, which is what makes
//! them interchangeable.

use vstd::arithmetic::div_mod::{lemma_fundamental_div_mod, lemma_mod_division_less_than_divisor};
use vstd::math::min;
use vstd::prelude::*;

use crate::axis::Axes;
use crate::storage::{acc_fits, acc_val, zero_val, Storage, StorageType, StoreVal};

verus! {

/// Why a histogram operation failed.
#[derive(Clone, Copy, PartialEq, Eq, Structural, Debug)]
pub enum HistError {
    /// A fill supplied a different number of values than the
    /// histogram has axes.
    AxesValuesMismatch { nvalues: usize, naxes: usize },
}

/// The per-axis bin counts of an axis list, in declared order.
pub open spec fn sizes_of(axes: Seq<Axes>, flow: bool) -> Seq<int> {
    axes.map_values(|a: Axes| a.num_bins_spec(flow))
}

/// The product of a list of sizes; the empty product is 1.
pub open spec fn product(s: Seq<int>) -> int
    decreases s.len(),
{
    if s.len() == 0 {
        1
    } else {
        product(s.drop_last()) * s.last()
    }
}

/// Row-major (C-order) strided address composition: in declared axis
/// order, `flat = flat * size + index`.
pub open spec fn stride_spec(sizes: Seq<int>, indices: Seq<usize>) -> int
    decreases sizes.len(),
{
    if sizes.len() == 0 {
        0
    } else {
        stride_spec(sizes.drop_last(), indices.drop_last()) * sizes.last() + indices.last()
    }
}

/// Well-formed axis list: every axis satisfies its construction
/// invariant and the flow-inclusive total bin count is addressable.
pub open spec fn axes_wf(axes: Seq<Axes>) -> bool {
    &&& forall|i: int| 0 <= i < axes.len() ==> (#[trigger] axes[i]).wf()
    &&& product(sizes_of(axes, true)) <= usize::MAX
}

/// One local bin index per axis, each within its axis's
/// flow-inclusive range.
pub open spec fn valid_indices(axes: Seq<Axes>, indices: Seq<usize>) -> bool {
    &&& indices.len() == axes.len()
    &&& forall|i: int|
        0 <= i < indices.len() ==> (#[trigger] indices[i]) < axes[i].num_bins_spec(true)
}

/// The model of a fresh histogram: every address reads the identity
/// cell of the storage kind.
pub open spec fn zero_cells(st: StorageType) -> Map<int, StoreVal> {
    Map::new(|j: int| true, |j: int| zero_val(st))
}

/// The model of one fill: the cell at `flat` accumulates weight `w`,
/// every other address is untouched.
pub open spec fn fill_model(cells: Map<int, StoreVal>, st: StorageType, flat: int, w: int) -> Map<
    int,
    StoreVal,
> {
    cells.insert(flat, acc_val(cells[flat], st, w))
}

/// The addresses of a fully materialized (dense) bin grid.
pub open spec fn grid_addrs(total: int) -> Set<int> {
    Set::new(|j: int| 0 <= j < total)
}

/// Well-formed cell model: total over all addresses, every cell of
/// the histogram's storage kind.
pub open spec fn cells_wf(cells: Map<int, StoreVal>, st: StorageType) -> bool {
    &&& forall|j: int| cells.dom().contains(j)
    &&& forall|j: int| crate::storage::matches_kind(#[trigger] cells[j], st)
}

/// Every axis kind has at least one bin, and adding flow slots never
/// shrinks a size.
pub proof fn lemma_sizes_pos(axes: Seq<Axes>)
    requires
        forall|i: int| 0 <= i < axes.len() ==> (#[trigger] axes[i]).wf(),
    ensures
        forall|i: int| 0 <= i < axes.len() ==> 1 <= #[trigger] sizes_of(axes, false)[i],
        forall|i: int| 0 <= i < axes.len() ==> 1 <= #[trigger] sizes_of(axes, true)[i],
        forall|i: int|
            0 <= i < axes.len() ==> #[trigger] sizes_of(axes, false)[i] <= sizes_of(axes, true)[i],
{
}

/// The product of a prefix, times the next size, is the product of
/// the longer prefix.
pub proof fn lemma_product_step(s: Seq<int>, k: int)
    requires
        0 <= k < s.len(),
    ensures
        product(s.take(k + 1)) == product(s.take(k)) * s[k],
{
    assert(s.take(k + 1).drop_last() =~= s.take(k));
    assert(s.take(k + 1).last() == s[k]);
}

/// With every size at least 1, the product of a prefix is bounded by
/// the product of the whole list.
pub proof fn lemma_product_prefix_le(s: Seq<int>, k: int)
    requires
        0 <= k <= s.len(),
        forall|i: int| 0 <= i < s.len() ==> 1 <= #[trigger] s[i],
    ensures
        1 <= product(s.take(k)) <= product(s),
    decreases s.len() - k,
{
    if k == s.len() {
        assert(s.take(k) =~= s);
        lemma_product_pos(s);
    } else {
        lemma_product_step(s, k);
        lemma_product_prefix_le(s, k + 1);
        assert(product(s.take(k)) <= product(s.take(k + 1)) && 1 <= product(s.take(k))) by (
        nonlinear_arith)
            requires
                product(s.take(k + 1)) == product(s.take(k)) * s[k],
                s[k] >= 1,
                product(s.take(k)) >= 1 || product(s.take(k + 1)) >= 1,
                1 <= product(s.take(k + 1)),
        ;
    }
}

/// With every size at least 1, the product is at least 1.
pub proof fn lemma_product_pos(s: Seq<int>)
    requires
        forall|i: int| 0 <= i < s.len() ==> 1 <= #[trigger] s[i],
    ensures
        1 <= product(s),
    decreases s.len(),
{
    if s.len() > 0 {
        assert(forall|i: int| 0 <= i < s.drop_last().len() ==> 1 <= #[trigger] s.drop_last()[i]);
        lemma_product_pos(s.drop_last());
        assert(1 <= product(s.drop_last()) * s.last()) by (nonlinear_arith)
            requires
                1 <= product(s.drop_last()),
                1 <= s.last(),
        ;
    }
}

/// Pointwise larger sizes give a product at least as large.
pub proof fn lemma_product_le_pointwise(s1: Seq<int>, s2: Seq<int>)
    requires
        s1.len() == s2.len(),
        forall|i: int| 0 <= i < s1.len() ==> 1 <= #[trigger] s1[i],
        forall|i: int| 0 <= i < s2.len() ==> #[trigger] s1[i] <= s2[i],
    ensures
        product(s1) <= product(s2),
    decreases s1.len(),
{
    if s1.len() > 0 {
        lemma_product_le_pointwise(s1.drop_last(), s2.drop_last());
        lemma_product_pos(s1.drop_last());
        assert(product(s1.drop_last()) * s1.last() <= product(s2.drop_last()) * s2.last()) by (
        nonlinear_arith)
            requires
                1 <= product(s1.drop_last()),
                product(s1.drop_last()) <= product(s2.drop_last()),
                1 <= s1.last(),
                s1.last() <= s2.last(),
        ;
    }
}

/// The strided address of valid per-axis indices lies within the
/// flow-inclusive total bin count.
pub proof fn lemma_stride_in_range(sizes: Seq<int>, indices: Seq<usize>)
    requires
        sizes.len() == indices.len(),
        forall|i: int| 0 <= i < sizes.len() ==> 1 <= #[trigger] sizes[i],
        forall|i: int| 0 <= i < indices.len() ==> (#[trigger] indices[i]) < sizes[i],
    ensures
        0 <= stride_spec(sizes, indices) < product(sizes),
    decreases sizes.len(),
{
    if sizes.len() == 0 {
    } else {
        let sf = sizes.drop_last();
        let ixf = indices.drop_last();
        lemma_stride_in_range(sf, ixf);
        assert(stride_spec(sf, ixf) * sizes.last() + indices.last() < product(sf) * sizes.last())
            by (nonlinear_arith)
            requires
                0 <= stride_spec(sf, ixf) < product(sf),
                0 <= indices.last() < sizes.last(),
        ;
    }
}

/// The number of bins of a histogram over the given axes: the product
/// of each axis's bin count, `flow` included or not.
pub fn num_bins_of(axes: &Vec<Axes>, flow: bool) -> (r: usize)
    requires
        axes_wf(axes@),
    ensures
        r == product(sizes_of(axes@, flow)),
{
    let ghost sizes = sizes_of(axes@, flow);
    proof {
        lemma_sizes_pos(axes@);
        if !flow {
            lemma_product_le_pointwise(sizes_of(axes@, false), sizes_of(axes@, true));
        }
        lemma_product_pos(sizes);
        assert(sizes.take(0) =~= Seq::<int>::empty());
    }
    let n = axes.len();
    let mut p: usize = 1;
    let mut i: usize = 0;
    while i < n
        invariant
            axes_wf(axes@),
            sizes == sizes_of(axes@, flow),
            product(sizes) <= usize::MAX,
            n == axes@.len(),
            0 <= i <= n,
            p == product(sizes.take(i as int)),
        decreases n - i,
    {
        let s = axes[i].num_bins(flow);
        proof {
            lemma_sizes_pos(axes@);
            lemma_product_step(sizes, i as int);
            lemma_product_prefix_le(sizes, i + 1);
        }
        p = p * s;
        i += 1;
    }
    proof {
        assert(sizes.take(n as int) =~= sizes);
    }
    p
}

/// Composes one local bin index per axis into the flat row-major
/// address. Fails with `AxesValuesMismatch` when the number of
/// indices differs from the number of axes; valid indices always
/// compose to an address below the flow-inclusive total bin count.
pub fn stride_index_of(axes: &Vec<Axes>, indices: &Vec<usize>) -> (r: Result<usize, HistError>)
    requires
        axes_wf(axes@),
        indices@.len() == axes@.len() ==> valid_indices(axes@, indices@),
    ensures
        indices@.len() == axes@.len() ==> (r matches Ok(f) && f == stride_spec(
            sizes_of(axes@, true),
            indices@,
        ) && f < product(sizes_of(axes@, true))),
        indices@.len() != axes@.len() ==> r == Result::<usize, HistError>::Err(
            HistError::AxesValuesMismatch {
                nvalues: indices.len(),
                naxes: axes.len(),
            },
        ),
{
    if indices.len() != axes.len() {
        return Err(
            HistError::AxesValuesMismatch { nvalues: indices.len(), naxes: axes.len() },
        );
    }
    let ghost sizes = sizes_of(axes@, true);
    proof {
        lemma_sizes_pos(axes@);
        assert(sizes.take(0) =~= Seq::<int>::empty());
        assert(indices@.take(0) =~= Seq::<usize>::empty());
    }
    let n = axes.len();
    let mut strided: usize = 0;
    let mut i: usize = 0;
    while i < n
        invariant
            axes_wf(axes@),
            valid_indices(axes@, indices@),
            sizes == sizes_of(axes@, true),
            product(sizes) <= usize::MAX,
            n == axes@.len(),
            indices@.len() == n,
            0 <= i <= n,
            strided == stride_spec(sizes.take(i as int), indices@.take(i as int)),
            strided < product(sizes.take(i as int)),
        decreases n - i,
    {
        let s = axes[i].num_bins(true);
        let ghost pk = product(sizes.take(i as int));
        proof {
            lemma_sizes_pos(axes@);
            lemma_product_step(sizes, i as int);
            lemma_product_prefix_le(sizes, i + 1);
            assert(strided * s + indices@[i as int] < pk * s) by (nonlinear_arith)
                requires
                    0 <= strided < pk,
                    0 <= indices@[i as int] < s,
            ;
            assert(sizes.take(i + 1).drop_last() =~= sizes.take(i as int));
            assert(indices@.take(i + 1).drop_last() =~= indices@.take(i as int));
        }
        strided = strided * s + indices[i];
        i += 1;
    }
    proof {
        assert(sizes.take(n as int) =~= sizes);
        assert(indices@.take(n as int) =~= indices@);
    }
    Ok(strided)
}

/// The strided addresses of two valid index tuples coincide only when
/// the tuples coincide: striding is injective.
pub proof fn lemma_stride_injective(sizes: Seq<int>, v1: Seq<usize>, v2: Seq<usize>)
    requires
        sizes.len() == v1.len() == v2.len(),
        forall|i: int| 0 <= i < sizes.len() ==> 1 <= #[trigger] sizes[i],
        forall|i: int| 0 <= i < v1.len() ==> (#[trigger] v1[i]) < sizes[i],
        forall|i: int| 0 <= i < v2.len() ==> (#[trigger] v2[i]) < sizes[i],
        stride_spec(sizes, v1) == stride_spec(sizes, v2),
    ensures
        v1 =~= v2,
    decreases sizes.len(),
{
    if sizes.len() > 0 {
        let sf = sizes.drop_last();
        let a = stride_spec(sf, v1.drop_last());
        let b = stride_spec(sf, v2.drop_last());
        lemma_stride_in_range(sf, v1.drop_last());
        lemma_stride_in_range(sf, v2.drop_last());
        assert(a == b && v1.last() == v2.last()) by (nonlinear_arith)
            requires
                a * sizes.last() + v1.last() == b * sizes.last() + v2.last(),
                0 <= v1.last() < sizes.last(),
                0 <= v2.last() < sizes.last(),
        ;
        lemma_stride_injective(sf, v1.drop_last(), v2.drop_last());
        assert(v1 =~= v1.drop_last().push(v1.last()));
        assert(v2 =~= v2.drop_last().push(v2.last()));
    }
}

/// The valid index tuple that strides to a given flat address.
pub open spec fn unstride(sizes: Seq<int>, flat: int) -> Seq<usize>
    decreases sizes.len(),
{
    if sizes.len() == 0 {
        Seq::empty()
    } else {
        unstride(sizes.drop_last(), flat / sizes.last()).push((flat % sizes.last()) as usize)
    }
}

/// Every flat address below the total bin count is the strided
/// address of some valid index tuple: striding is surjective onto
/// `[0, product)`.
pub proof fn lemma_stride_surjective(sizes: Seq<int>, flat: int)
    requires
        forall|i: int| 0 <= i < sizes.len() ==> 1 <= #[trigger] sizes[i],
        product(sizes) <= usize::MAX,
        0 <= flat < product(sizes),
    ensures
        valid_indices_sized(sizes, unstride(sizes, flat)),
        stride_spec(sizes, unstride(sizes, flat)) == flat,
    decreases sizes.len(),
{
    if sizes.len() == 0 {
    } else {
        let s = sizes.last();
        let sf = sizes.drop_last();
        let q = flat / s;
        let r = flat % s;
        lemma_mod_division_less_than_divisor(flat, s);
        lemma_fundamental_div_mod(flat, s);
        lemma_product_pos(sf);
        assert(0 <= q < product(sf) && s <= product(sizes) && product(sf) <= product(sizes)) by (
        nonlinear_arith)
            requires
                flat == s * q + r,
                0 <= r < s,
                0 <= flat < product(sf) * s,
                product(sizes) == product(sf) * s,
                1 <= s,
                1 <= product(sf),
        ;
        lemma_stride_surjective(sf, q);
        let v = unstride(sizes, flat);
        assert(v.drop_last() =~= unstride(sf, q));
        assert(0 <= r <= usize::MAX);
        assert(v.last() == r as usize);
        assert(stride_spec(sf, v.drop_last()) == q);
        assert(stride_spec(sizes, v) == q * s + v.last() as int);
        assert(v.last() as int == r);
        assert(q * s == s * q) by (nonlinear_arith);
    }
}

/// Like `valid_indices`, stated over the sizes themselves.
pub open spec fn valid_indices_sized(sizes: Seq<int>, indices: Seq<usize>) -> bool {
    &&& indices.len() == sizes.len()
    &&& forall|i: int| 0 <= i < indices.len() ==> (#[trigger] indices[i]) < sizes[i]
}

/// Reading any address of a fresh histogram yields the identity cell
/// of its storage kind.
pub proof fn lemma_fresh_reads_zero(st: StorageType, i: int)
    ensures
        zero_cells(st)[i] == zero_val(st),
{
}

/// One fill touches exactly one address: reads of every other
/// address are unchanged.
pub proof fn lemma_fill_preserves_other_bins(
    cells: Map<int, StoreVal>,
    st: StorageType,
    flat: int,
    w: int,
    i: int,
)
    requires
        i != flat,
    ensures
        fill_model(cells, st, flat, w)[i] == cells[i],
{
}

/// Whether the first `k` value tuples each supply one index per axis.
pub open spec fn tuples_ok(axes: Seq<Axes>, values: Seq<Vec<usize>>, k: int) -> bool {
    forall|j: int| 0 <= j < k ==> (#[trigger] values[j])@.len() == axes.len()
}

/// The model after the first `k` fills of a fill sequence have been
/// applied in order.
pub open spec fn cells_after(
    cells: Map<int, StoreVal>,
    axes: Seq<Axes>,
    st: StorageType,
    values: Seq<Vec<usize>>,
    weights: Seq<i64>,
    k: int,
) -> Map<int, StoreVal>
    decreases k,
{
    if k <= 0 {
        cells
    } else {
        fill_model(
            cells_after(cells, axes, st, values, weights, k - 1),
            st,
            stride_spec(sizes_of(axes, true), values[k - 1]@),
            weights[k - 1] as int,
        )
    }
}

/// The histogram interface every storage backend implements.
///
/// The spec members expose the backend's logical state: its axes, its
/// storage kind, and its contents as the total address-to-cell map
/// `cells()`. The contracts of `fill` and `get_bin` are stated purely
/// over that model, identically for every backend: a fresh histogram
/// models as `zero_cells`, one fill as `fill_model`, and a read as
/// `cells()[idx]`. Backends are therefore observationally equivalent
/// whenever their models agree.
pub trait Histogram: Sized {
    /// The axes of this histogram, in declared dimension order.
    spec fn axes_seq(&self) -> Seq<Axes>;

    /// The storage kind fixed at construction.
    spec fn st_kind(&self) -> StorageType;

    /// The logical contents: a total map from flat bin address to
    /// cell. Addresses never filled (out-of-range ones included) map
    /// to the identity cell.
    spec fn cells(&self) -> Map<int, StoreVal>;

    /// The addresses the backend holds storage for. Dense backends
    /// materialize the whole flow-inclusive grid at construction;
    /// sparse backends start empty and materialize one address per
    /// newly filled bin, so their memory stays proportional to the
    /// number of distinct bins filled.
    spec fn materialized(&self) -> Set<int>;

    /// The representation invariant of the backend.
    spec fn inv(&self) -> bool;

    /// The invariant yields well-formed axes and a well-formed model.
    proof fn inv_facts(&self)
        requires
            self.inv(),
        ensures
            axes_wf(self.axes_seq()),
            cells_wf(self.cells(), self.st_kind()),
    ;

    /// The axes, for callers composing indices themselves.
    fn get_axes(&self) -> (r: &Vec<Axes>)
        ensures
            r@ == self.axes_seq(),
    ;

    /// Reads the cell at a flat address. Never fails: an address that
    /// was never filled, or lies out of range, reads as the identity
    /// cell.
    fn get_bin(&self, idx: usize) -> (r: Storage)
        requires
            self.inv(),
        ensures
            r@ == self.cells()[idx as int],
    ;

    /// Accumulates `weight` into the bin addressed by one local index
    /// per axis. Fails (leaving the histogram unchanged) exactly when
    /// the number of indices differs from the number of axes.
    fn fill(&mut self, indices: &Vec<usize>, weight: i64) -> (r: Result<(), HistError>)
        requires
            old(self).inv(),
            indices@.len() == old(self).axes_seq().len() ==> valid_indices(
                old(self).axes_seq(),
                indices@,
            ) && acc_fits(
                old(self).cells()[stride_spec(sizes_of(old(self).axes_seq(), true), indices@)],
                old(self).st_kind(),
                weight as int,
            ),
        ensures
            final(self).inv(),
            final(self).axes_seq() == old(self).axes_seq(),
            final(self).st_kind() == old(self).st_kind(),
            indices@.len() == old(self).axes_seq().len() ==> (r is Ok && final(self).cells()
                == fill_model(
                old(self).cells(),
                old(self).st_kind(),
                stride_spec(sizes_of(old(self).axes_seq(), true), indices@),
                weight as int,
            ) && final(self).materialized() == old(self).materialized().insert(
                stride_spec(sizes_of(old(self).axes_seq(), true), indices@),
            )),
            indices@.len() != old(self).axes_seq().len() ==> (r == Result::<(), HistError>::Err(
                HistError::AxesValuesMismatch {
                    nvalues: indices@.len() as usize,
                    naxes: old(self).axes_seq().len() as usize,
                },
            ) && final(self).cells() == old(self).cells() && final(self).materialized() == old(
                self,
            ).materialized()),
    ;

    /// The number of bins: the product over the axes, `flow` slots
    /// included or not.
    fn num_bins(&self, flow: bool) -> (r: usize)
        requires
            self.inv(),
        ensures
            r == product(sizes_of(self.axes_seq(), flow)),
    {
        proof {
            self.inv_facts();
        }
        num_bins_of(self.get_axes(), flow)
    }

    /// Composes one local index per axis into the flat row-major
    /// address, as `stride_index_of` does.
    fn stride_index(&self, indices: &Vec<usize>) -> (r: Result<usize, HistError>)
        requires
            self.inv(),
            indices@.len() == self.axes_seq().len() ==> valid_indices(self.axes_seq(), indices@),
        ensures
            indices@.len() == self.axes_seq().len() ==> (r matches Ok(f) && f == stride_spec(
                sizes_of(self.axes_seq(), true),
                indices@,
            ) && f < product(sizes_of(self.axes_seq(), true))),
            indices@.len() != self.axes_seq().len() ==> r == Result::<usize, HistError>::Err(
                HistError::AxesValuesMismatch {
                    nvalues: indices@.len() as usize,
                    naxes: self.axes_seq().len() as usize,
                },
            ),
    {
        proof {
            self.inv_facts();
        }
        stride_index_of(self.get_axes(), indices)
    }

    /// Applies `fill` to parallel sequences of index tuples and
    /// weights, pairing them up to the shorter length. Best-effort and
    /// fail-fast: on the first arity mismatch it stops with that
    /// fill's error, keeping everything accumulated before it.
    fn fill_n(&mut self, values: &Vec<Vec<usize>>, weights: &Vec<i64>) -> (r: Result<
        (),
        HistError,
    >)
        requires
            old(self).inv(),
            forall|k: int|
                0 <= k < min(values@.len() as int, weights@.len() as int) && tuples_ok(
                    old(self).axes_seq(),
                    values@,
                    k + 1,
                ) ==> valid_indices(old(self).axes_seq(), (#[trigger] values@[k])@) && acc_fits(
                    cells_after(
                        old(self).cells(),
                        old(self).axes_seq(),
                        old(self).st_kind(),
                        values@,
                        weights@,
                        k,
                    )[stride_spec(sizes_of(old(self).axes_seq(), true), values@[k]@)],
                    old(self).st_kind(),
                    weights@[k] as int,
                ),
        ensures
            final(self).inv(),
            final(self).axes_seq() == old(self).axes_seq(),
            final(self).st_kind() == old(self).st_kind(),
            tuples_ok(
                old(self).axes_seq(),
                values@,
                min(values@.len() as int, weights@.len() as int),
            ) ==> (r is Ok && final(self).cells() == cells_after(
                old(self).cells(),
                old(self).axes_seq(),
                old(self).st_kind(),
                values@,
                weights@,
                min(values@.len() as int, weights@.len() as int),
            )),
            !tuples_ok(
                old(self).axes_seq(),
                values@,
                min(values@.len() as int, weights@.len() as int),
            ) ==> (exists|k: int|
                0 <= k < min(values@.len() as int, weights@.len() as int) && tuples_ok(
                    old(self).axes_seq(),
                    values@,
                    k,
                ) && (#[trigger] values@[k])@.len() != old(self).axes_seq().len() && r
                    == Result::<(), HistError>::Err(
                    HistError::AxesValuesMismatch {
                        nvalues: values@[k]@.len() as usize,
                        naxes: old(self).axes_seq().len() as usize,
                    },
                ) && final(self).cells() == cells_after(
                    old(self).cells(),
                    old(self).axes_seq(),
                    old(self).st_kind(),
                    values@,
                    weights@,
                    k,
                )),
    {
        let n = if values.len() < weights.len() {
            values.len()
        } else {
            weights.len()
        };
        let mut i: usize = 0;
        while i < n
            invariant
                self.inv(),
                self.axes_seq() == old(self).axes_seq(),
                self.st_kind() == old(self).st_kind(),
                n == min(values@.len() as int, weights@.len() as int),
                0 <= i <= n,
                tuples_ok(old(self).axes_seq(), values@, i as int),
                self.cells() == cells_after(
                    old(self).cells(),
                    old(self).axes_seq(),
                    old(self).st_kind(),
                    values@,
                    weights@,
                    i as int,
                ),
                forall|k: int|
                    0 <= k < n && tuples_ok(old(self).axes_seq(), values@, k + 1)
                        ==> valid_indices(old(self).axes_seq(), (#[trigger] values@[k])@)
                        && acc_fits(
                        cells_after(
                            old(self).cells(),
                            old(self).axes_seq(),
                            old(self).st_kind(),
                            values@,
                            weights@,
                            k,
                        )[stride_spec(sizes_of(old(self).axes_seq(), true), values@[k]@)],
                        old(self).st_kind(),
                        weights@[k] as int,
                    ),
            decreases n - i,
        {
            let ghost axes0 = old(self).axes_seq();
            let ghost st0 = old(self).st_kind();
            let ghost cells0 = old(self).cells();
            let res = self.fill(&values[i], weights[i]);
            match res {
                Ok(()) => {
                    proof {
                        assert(tuples_ok(axes0, values@, i + 1));
                        assert(self.cells() == cells_after(
                            cells0,
                            axes0,
                            st0,
                            values@,
                            weights@,
                            i + 1,
                        ));
                    }
                },
                Err(e) => {
                    proof {
                        let ghost kw = i as int;
                        assert(0 <= kw < n && tuples_ok(axes0, values@, kw) && (
                        #[trigger] values@[kw])@.len() != axes0.len());
                    }
                    return Err(e);
                },
            }
            i += 1;
        }
        Ok(())
    }
}

/// Identity reads are stable: after any fill sequence, an address
/// that no fill of the sequence strided to still reads the identity
/// cell of the storage kind.
pub proof fn lemma_untouched_reads_zero(
    axes: Seq<Axes>,
    st: StorageType,
    values: Seq<Vec<usize>>,
    weights: Seq<i64>,
    k: int,
    i: int,
)
    requires
        forall|q: int|
            0 <= q < k ==> stride_spec(sizes_of(axes, true), (#[trigger] values[q])@) != i,
    ensures
        cells_after(zero_cells(st), axes, st, values, weights, k)[i] == zero_val(st),
    decreases k,
{
    if k > 0 {
        lemma_untouched_reads_zero(axes, st, values, weights, k - 1, i);
    }
}

/// The model after a fill sequence depends on the axes only through
/// their flow-inclusive sizes.
pub proof fn lemma_cells_after_same_sizes(
    cells: Map<int, StoreVal>,
    axes1: Seq<Axes>,
    axes2: Seq<Axes>,
    st: StorageType,
    values: Seq<Vec<usize>>,
    weights: Seq<i64>,
    k: int,
)
    requires
        sizes_of(axes1, true) == sizes_of(axes2, true),
    ensures
        cells_after(cells, axes1, st, values, weights, k) == cells_after(
            cells,
            axes2,
            st,
            values,
            weights,
            k,
        ),
    decreases k,
{
    if k > 0 {
        lemma_cells_after_same_sizes(cells, axes1, axes2, st, values, weights, k - 1);
    }
}

/// Backend equivalence. Every backend's constructor models as
/// `zero_cells`, its `fill` as `fill_model` and its `get_bin` as a
/// read of `cells()`; so two histograms of any backends, built over
/// axes of the same flow-inclusive sizes with the same storage kind
/// and fed the same fill sequence, hold equal models and answer every
/// read identically.
pub proof fn lemma_backend_equivalence<H1: Histogram, H2: Histogram>(
    h1: H1,
    h2: H2,
    values: Seq<Vec<usize>>,
    weights: Seq<i64>,
    k: int,
)
    requires
        h1.st_kind() == h2.st_kind(),
        sizes_of(h1.axes_seq(), true) == sizes_of(h2.axes_seq(), true),
        h1.cells() == cells_after(
            zero_cells(h1.st_kind()),
            h1.axes_seq(),
            h1.st_kind(),
            values,
            weights,
            k,
        ),
        h2.cells() == cells_after(
            zero_cells(h2.st_kind()),
            h2.axes_seq(),
            h2.st_kind(),
            values,
            weights,
            k,
        ),
    ensures
        h1.cells() == h2.cells(),
        forall|j: int| h1.cells()[j] == h2.cells()[j],
{
    lemma_cells_after_same_sizes(
        zero_cells(h1.st_kind()),
        h1.axes_seq(),
        h2.axes_seq(),
        h1.st_kind(),
        values,
        weights,
        k,
    );
}

/// Accumulation commutes: two fills land in the same final state in
/// either order. For distinct bins the updates are disjoint; for the
/// same bin the final cell is the algebraic sum of both weights
/// either way.
pub proof fn lemma_fill_commutes(
    cells: Map<int, StoreVal>,
    st: StorageType,
    f1: int,
    w1: int,
    f2: int,
    w2: int,
)
    requires
        cells_wf(cells, st),
    ensures
        fill_model(fill_model(cells, st, f1, w1), st, f2, w2) == fill_model(
            fill_model(cells, st, f2, w2),
            st,
            f1,
            w1,
        ),
{
    let lhs = fill_model(fill_model(cells, st, f1, w1), st, f2, w2);
    let rhs = fill_model(fill_model(cells, st, f2, w2), st, f1, w1);
    assert(lhs =~= rhs);
}

} // verus!
