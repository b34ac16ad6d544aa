//! Self-filling named axis: a one-dimensional histogram whose bins
//! carry their own accumulated totals.
//!
//! This is the simplest shape of the engine: an `Axis` owns a list of
//! contiguous half-open bins `[lower, upper)` over tick coordinates,
//! each bin holding its accumulated weight, and `weighted_fill` finds
//! the bin of a value by binary search and adds the weight in place. A
//! `Histogram` simply wraps one such axis under the same `Fill`
//! interface.

use vstd::pervasive::VecAdditionalExecFns;
use vstd::prelude::*;

use crate::axis::AxisError;

verus! {

/// One bin: its half-open bounds `[lower, upper)` and its accumulated
/// weight.
#[derive(Clone, Copy, PartialEq, Eq, Debug)]
pub struct Bin {
    pub bounds: (i64, i64),
    pub value: i64,
}

impl Bin {
    /// A fresh bin over `[lower, upper)` with nothing accumulated.
    pub fn new(lower: i64, upper: i64) -> (r: Self)
        ensures
            r.bounds.0 == lower,
            r.bounds.1 == upper,
            r.value == 0,
    {
        Bin { bounds: (lower, upper), value: 0 }
    }
}

/// Whether a bin's half-open range holds `v`.
pub open spec fn bin_contains(b: Bin, v: int) -> bool {
    b.bounds.0 <= v < b.bounds.1
}

/// Whether some bin of the list holds `v`.
pub open spec fn covered(bins: Seq<Bin>, v: int) -> bool {
    exists|p: int| 0 <= p < bins.len() && bin_contains(#[trigger] bins[p], v)
}

/// The position of the first bin at or after `q` holding `v`, or the
/// list length when no bin does.
pub open spec fn bin_of_from(bins: Seq<Bin>, v: int, q: int) -> int
    decreases bins.len() - q,
{
    if q < 0 || q >= bins.len() {
        bins.len() as int
    } else if bin_contains(bins[q], v) {
        q
    } else {
        bin_of_from(bins, v, q + 1)
    }
}

/// Well-formed bin list: at least one bin, every bin a non-empty
/// half-open range, and adjacent bins sharing their edges.
pub open spec fn bins_wf(bins: Seq<Bin>) -> bool {
    &&& 1 <= bins.len()
    &&& forall|i: int| 0 <= i < bins.len() ==> (#[trigger] bins[i]).bounds.0 < bins[i].bounds.1
    &&& forall|i: int, j: int|
        #![trigger bins[i], bins[j]]
        0 <= i && j == i + 1 && j < bins.len() ==> bins[i].bounds.1 == bins[j].bounds.0
}

/// Filling: accumulating a weighted value into whatever owns a bin
/// list.
pub trait Fill: Sized {
    /// The bins, with their accumulated totals.
    spec fn bins_model(&self) -> Seq<Bin>;

    /// The name of the underlying axis.
    spec fn label(&self) -> Seq<char>;

    /// The well-formedness of the bin list.
    spec fn fill_wf(&self) -> bool;

    /// Accumulates `weight` into the bin holding `value`. Fails with
    /// `FailedToFindBinIndex` (changing nothing) exactly when the
    /// value lies outside every bin.
    fn weighted_fill(&mut self, value: i64, weight: i64) -> (r: Result<(), AxisError>)
        requires
            old(self).fill_wf(),
            covered(old(self).bins_model(), value as int) ==> ({
                let p = bin_of_from(old(self).bins_model(), value as int, 0);
                i64::MIN <= old(self).bins_model()[p].value + weight <= i64::MAX
            }),
        ensures
            final(self).fill_wf(),
            final(self).label() == old(self).label(),
            r is Ok <==> covered(old(self).bins_model(), value as int),
            r is Err ==> r == Result::<(), AxisError>::Err(AxisError::FailedToFindBinIndex)
                && final(self).bins_model() == old(self).bins_model(),
            r is Ok ==> ({
                let bins = old(self).bins_model();
                let p = bin_of_from(bins, value as int, 0);
                final(self).bins_model() == bins.update(
                    p,
                    (Bin { bounds: bins[p].bounds, value: (bins[p].value + weight) as i64 }),
                )
            }),
    ;

    /// Accumulates a unit weight into the bin holding `value`.
    fn fill(&mut self, value: i64) -> (r: Result<(), AxisError>)
        requires
            old(self).fill_wf(),
            covered(old(self).bins_model(), value as int) ==> ({
                let p = bin_of_from(old(self).bins_model(), value as int, 0);
                old(self).bins_model()[p].value + 1 <= i64::MAX
            }),
        ensures
            final(self).fill_wf(),
            final(self).label() == old(self).label(),
            r is Ok <==> covered(old(self).bins_model(), value as int),
            r is Err ==> r == Result::<(), AxisError>::Err(AxisError::FailedToFindBinIndex)
                && final(self).bins_model() == old(self).bins_model(),
            r is Ok ==> ({
                let bins = old(self).bins_model();
                let p = bin_of_from(bins, value as int, 0);
                final(self).bins_model() == bins.update(
                    p,
                    (Bin { bounds: bins[p].bounds, value: (bins[p].value + 1) as i64 }),
                )
            }),
    {
        let out = self.weighted_fill(value, 1)?;
        Ok(out)
    }
}

/// A named axis of contiguous self-filling bins.
#[derive(Clone, PartialEq, Eq, Debug)]
pub struct Axis {
    pub name: String,
    pub bins: Vec<Bin>,
}

impl Axis {
    /// Builds an axis from ready-made bins, which must align: each
    /// bin's upper edge must be the next bin's lower edge.
    pub fn new(name: String, bins: Vec<Bin>) -> (r: Self)
        requires
            bins_wf(bins@),
        ensures
            r.name == name,
            r.bins == bins,
    {
        Axis { name, bins }
    }

    /// Builds an axis of one bin per window of two consecutive edges,
    /// which must be strictly increasing.
    pub fn from_edges(name: String, edges: Vec<i64>) -> (r: Self)
        requires
            2 <= edges@.len() <= usize::MAX,
            crate::variable::strictly_increasing(edges@),
        ensures
            r.name == name,
            r.bins@.len() == edges@.len() - 1,
            forall|i: int|
                0 <= i < r.bins@.len() ==> (#[trigger] r.bins@[i]).bounds.0 == edges@[i]
                    && r.bins@[i].bounds.1 == edges@[i + 1] && r.bins@[i].value == 0,
            bins_wf(r.bins@),
    {
        let n = edges.len();
        let mut bins: Vec<Bin> = Vec::new();
        let mut k: usize = 0;
        while k < n - 1
            invariant
                n == edges@.len(),
                2 <= n,
                crate::variable::strictly_increasing(edges@),
                0 <= k <= n - 1,
                bins@.len() == k,
                forall|i: int|
                    0 <= i < k ==> (#[trigger] bins@[i]).bounds.0 == edges@[i] && bins@[i].bounds.1
                        == edges@[i + 1] && bins@[i].value == 0,
            decreases n - 1 - k,
        {
            bins.push(Bin::new(edges[k], edges[k + 1]));
            k += 1;
        }
        proof {
            assert forall|i: int| 1 <= i < bins@.len() implies (#[trigger] bins@[i]).bounds.0
                == bins@[i - 1].bounds.1 by {
                assert(bins@[i - 1].bounds.1 == edges@[i]);
            }
        }
        Axis::new(name, bins)
    }

    /// Builds an axis of `num` equally wide bins starting at `start`,
    /// with the whole-tick step `(stop - start) / num`; the range must
    /// be wide enough to give every bin at least one tick.
    pub fn from_uniform(name: String, start: i64, stop: i64, num: usize) -> (r: Self)
        requires
            1 <= num,
            num <= stop - start,
            stop - start <= i64::MAX,
        ensures
            r.name == name,
            r.bins@.len() == num,
            forall|i: int|
                0 <= i < num ==> (#[trigger] r.bins@[i]).bounds.0 == start + i * ((stop - start)
                    / num as int) && r.bins@[i].bounds.1 == start + (i + 1) * ((stop - start)
                    / num as int) && r.bins@[i].value == 0,
            bins_wf(r.bins@),
    {
        let ghost d = stop - start;
        let ghost nn = num as int;
        let step: i64 = ((stop as i128 - start as i128) / (num as i128)) as i64;
        proof {
            vstd::arithmetic::div_mod::lemma_fundamental_div_mod(d, nn);
            vstd::arithmetic::div_mod::lemma_mod_division_less_than_divisor(d, nn);
            assert(nn * (d / nn) <= d);
            assert(1 <= d / nn) by (nonlinear_arith)
                requires
                    1 <= nn <= d,
                    d == nn * (d / nn) + d % nn,
                    0 <= d % nn < nn,
            ;
            assert(nn * (d / nn) == (d / nn) * nn) by (nonlinear_arith);
        }
        let mut bins: Vec<Bin> = Vec::new();
        let mut i: usize = 0;
        while i < num
            invariant
                1 <= nn <= d <= i64::MAX,
                nn == num as int,
                d == stop - start,
                step == d / nn,
                1 <= step,
                nn * step <= d,
                0 <= i <= num,
                bins@.len() == i,
                forall|k: int|
                    0 <= k < i ==> (#[trigger] bins@[k]).bounds.0 == start + k * (d / nn)
                        && bins@[k].bounds.1 == start + (k + 1) * (d / nn) && bins@[k].value == 0,
            decreases num - i,
        {
            proof {
                assert(0 <= i as int * step && i as int * step <= (i as int + 1) * step && (
                i as int + 1) * step <= nn * step) by (nonlinear_arith)
                    requires
                        0 <= i as int,
                        (i as int) < nn,
                        1 <= step,
                ;
            }
            let lower: i64 = start + (i as i64) * step;
            let upper: i64 = start + (i as i64 + 1) * step;
            bins.push(Bin::new(lower, upper));
            i += 1;
        }
        proof {
            assert forall|k: int| 1 <= k < bins@.len() implies (#[trigger] bins@[k]).bounds.0
                == bins@[k - 1].bounds.1 by {
                assert(bins@[k - 1].bounds.1 == start + ((k - 1) + 1) * (d / nn));
            }
            assert forall|k: int| 0 <= k < bins@.len() implies (#[trigger] bins@[k]).bounds.0
                < bins@[k].bounds.1 by {
                assert(k * (d / nn) < (k + 1) * (d / nn)) by (nonlinear_arith)
                    requires
                        1 <= d / nn,
                        0 <= k,
                ;
            }
        }
        Axis::new(name, bins)
    }
}

/// Earlier bins end no later than later bins begin.
pub proof fn lemma_filled_bin_order(bins: Seq<Bin>, i: int, j: int)
    requires
        bins_wf(bins),
        0 <= i < j < bins.len(),
    ensures
        bins[i].bounds.1 <= bins[j].bounds.0,
    decreases j - i,
{
    if j == i + 1 {
        assert(bins[j].bounds.0 == bins[j - 1].bounds.1);
    } else {
        lemma_filled_bin_order(bins, i, j - 1);
        assert(bins[j].bounds.0 == bins[j - 1].bounds.1);
    }
}

/// A value lies in at most one bin.
pub proof fn lemma_filled_bin_unique(bins: Seq<Bin>, v: int, i: int, j: int)
    requires
        bins_wf(bins),
        0 <= i < bins.len(),
        0 <= j < bins.len(),
        bin_contains(bins[i], v),
        bin_contains(bins[j], v),
    ensures
        i == j,
{
    if i < j {
        lemma_filled_bin_order(bins, i, j);
    }
    if j < i {
        lemma_filled_bin_order(bins, j, i);
    }
}

/// If `v` first lies in bin `p` (scanning from `q`), that is the bin
/// the scan names.
pub proof fn lemma_bin_of_found(bins: Seq<Bin>, v: int, p: int, q: int)
    requires
        0 <= q <= p < bins.len(),
        bin_contains(bins[p], v),
        forall|r: int| q <= r < p ==> !bin_contains(#[trigger] bins[r], v),
    ensures
        bin_of_from(bins, v, q) == p,
    decreases bins.len() - q,
{
    if q < p {
        lemma_bin_of_found(bins, v, p, q + 1);
    }
}

/// If no bin at or after `q` holds `v`, the scan names the list
/// length.
pub proof fn lemma_bin_of_missing(bins: Seq<Bin>, v: int, q: int)
    requires
        0 <= q,
        forall|r: int| q <= r < bins.len() ==> !bin_contains(#[trigger] bins[r], v),
    ensures
        bin_of_from(bins, v, q) == bins.len(),
    decreases bins.len() - q,
{
    if q < bins.len() {
        lemma_bin_of_missing(bins, v, q + 1);
    }
}

/// Binary search for the bin holding `value`: its position, or the
/// list length when the value lies outside every bin.
fn find_bin_idx(bins: &Vec<Bin>, value: i64) -> (r: usize)
    requires
        bins_wf(bins@),
    ensures
        r <= bins@.len(),
        r == bin_of_from(bins@, value as int, 0),
        r < bins@.len() ==> bin_contains(bins@[r as int], value as int),
        r == bins@.len() ==> !covered(bins@, value as int),
{
    let n = bins.len();
    if value < bins[0].bounds.0 || value >= bins[n - 1].bounds.1 {
        proof {
            assert forall|p: int|
                0 <= p < bins@.len() implies !bin_contains(
                #[trigger] bins@[p],
                value as int,
            ) by {
                if value < bins@[0].bounds.0 {
                    if p > 0 {
                        lemma_filled_bin_order(bins@, 0, p);
                    }
                } else {
                    if p < bins@.len() - 1 {
                        lemma_filled_bin_order(bins@, p, bins@.len() - 1);
                    }
                }
            }
            lemma_bin_of_missing(bins@, value as int, 0);
        }
        return n;
    }
    let mut lo: usize = 0;
    let mut hi: usize = n;
    while hi - lo > 1
        invariant
            bins_wf(bins@),
            n == bins@.len(),
            0 <= lo < hi <= n,
            bins@[lo as int].bounds.0 <= value,
            value < bins@[hi - 1].bounds.1,
        decreases hi - lo,
    {
        let mid = lo + (hi - lo) / 2;
        if value < bins[mid].bounds.0 {
            proof {
                let ghost b1 = bins@[mid - 1];
                let ghost b2 = bins@[mid as int];
                assert(b1.bounds.1 == b2.bounds.0);
            }
            hi = mid;
        } else {
            lo = mid;
        }
    }
    proof {
        assert(bin_contains(bins@[lo as int], value as int));
        assert forall|r: int| 0 <= r < lo implies !bin_contains(
            #[trigger] bins@[r],
            value as int,
        ) by {
            if bin_contains(bins@[r], value as int) {
                lemma_filled_bin_unique(bins@, value as int, r, lo as int);
            }
        }
        lemma_bin_of_found(bins@, value as int, lo as int, 0);
    }
    lo
}

impl Fill for Axis {
    open spec fn bins_model(&self) -> Seq<Bin> {
        self.bins@
    }

    open spec fn label(&self) -> Seq<char> {
        self.name@
    }

    open spec fn fill_wf(&self) -> bool {
        bins_wf(self.bins@)
    }

    /// Binary search for the bin holding `value`, then accumulate the
    /// weight in place.
    fn weighted_fill(&mut self, value: i64, weight: i64) -> (r: Result<(), AxisError>) {
        let idx = find_bin_idx(&self.bins, value);
        if idx == self.bins.len() {
            return Err(AxisError::FailedToFindBinIndex);
        }
        proof {
            assert(covered(self.bins@, value as int)) by {
                assert(bin_contains(self.bins@[idx as int], value as int));
            }
            assert(i64::MIN <= (old(self).bins_model()[idx as int]).value + weight <= i64::MAX);
        }
        let b = self.bins[idx];
        self.bins.set(idx, Bin { bounds: b.bounds, value: b.value + weight });
        Ok(())
    }
}

/// A one-axis histogram: a thin wrapper that forwards filling to its
/// axis.
#[derive(Clone, PartialEq, Eq, Debug)]
pub struct Histogram {
    pub axis: Axis,
}

impl Histogram {
    pub fn new(axis: Axis) -> (r: Self)
        ensures
            r.axis == axis,
    {
        Histogram { axis }
    }
}

impl Fill for Histogram {
    open spec fn bins_model(&self) -> Seq<Bin> {
        self.axis.bins@
    }

    open spec fn label(&self) -> Seq<char> {
        self.axis.name@
    }

    open spec fn fill_wf(&self) -> bool {
        bins_wf(self.axis.bins@)
    }

    fn weighted_fill(&mut self, value: i64, weight: i64) -> (r: Result<(), AxisError>) {
        let out = self.axis.weighted_fill(value, weight)?;
        Ok(out)
    }
}

} // verus!
