//! Storage cells: the per-bin value representation and its
//! accumulation algebra.
//!
//! A cell is one of three accumulator kinds: a plain sum (`Double`),
//! an integer count (`Int`), or a weighted pair (`Weight`) that keeps
//! the sum of weights together with the sum of squared weights, for
//! post-hoc statistical-error estimation. Accumulation is only defined
//! between cells of the same kind; the histogram backends fix one kind
//! at construction and never mix them.

use vstd::prelude::*;

verus! {

/// Selects which accumulator kind a histogram stores.
#[derive(Clone, Copy, PartialEq, Eq, Structural, Debug)]
pub enum StorageType {
    Double,
    Int,
    Weight,
}

/// One bin's accumulated value. The payloads are fixed-point ticks
/// except for `Int`, which counts in whole units.
#[derive(Clone, Copy, PartialEq, Eq, Structural, Debug)]
pub enum Storage {
    Double(i64),
    Int(i64),
    Weight(i64, i64),
}

/// Mathematical model of a cell: the same three kinds over
/// unbounded integers.
pub enum StoreVal {
    Double(int),
    Int(int),
    Weight(int, int),
}

impl View for Storage {
    type V = StoreVal;

    open spec fn view(&self) -> StoreVal {
        match *self {
            Storage::Double(x) => StoreVal::Double(x as int),
            Storage::Int(x) => StoreVal::Int(x as int),
            Storage::Weight(w, w2) => StoreVal::Weight(w as int, w2 as int),
        }
    }
}

/// The identity cell of a kind: what an unfilled bin reads as.
pub open spec fn zero_val(st: StorageType) -> StoreVal {
    match st {
        StorageType::Double => StoreVal::Double(0),
        StorageType::Int => StoreVal::Int(0),
        StorageType::Weight => StoreVal::Weight(0, 0),
    }
}

/// Whether a cell is of the given kind.
pub open spec fn matches_kind(c: StoreVal, st: StorageType) -> bool {
    match st {
        StorageType::Double => c is Double,
        StorageType::Int => c is Int,
        StorageType::Weight => c is Weight,
    }
}

/// The increment that one observation of weight `w` contributes to a
/// cell of kind `st`: the weight itself, or the pair `(w, w * w)`.
pub open spec fn delta_val(st: StorageType, w: int) -> StoreVal {
    match st {
        StorageType::Double => StoreVal::Double(w),
        StorageType::Int => StoreVal::Int(w),
        StorageType::Weight => StoreVal::Weight(w, w * w),
    }
}

/// A cell of kind `st` after accumulating one observation of weight `w`.
pub open spec fn acc_val(c: StoreVal, st: StorageType, w: int) -> StoreVal {
    match (c, st) {
        (StoreVal::Double(a), StorageType::Double) => StoreVal::Double(a + w),
        (StoreVal::Int(a), StorageType::Int) => StoreVal::Int(a + w),
        (StoreVal::Weight(a, a2), StorageType::Weight) => StoreVal::Weight(a + w, a2 + w * w),
        _ => c,
    }
}

/// Whether accumulating weight `w` into cell `c` of kind `st` stays
/// within the machine range of the executable representation.
pub open spec fn acc_fits(c: StoreVal, st: StorageType, w: int) -> bool {
    match st {
        StorageType::Double => c matches StoreVal::Double(a) && in_i64(a + w),
        StorageType::Int => c matches StoreVal::Int(a) && in_i64(a + w),
        StorageType::Weight => c matches StoreVal::Weight(a, a2) && in_i64(w * w) && in_i64(
            a + w,
        ) && in_i64(a2 + w * w),
    }
}

pub open spec fn in_i64(x: int) -> bool {
    i64::MIN <= x <= i64::MAX
}

impl StorageType {
    /// The identity value of this kind, used to initialize dense bins
    /// and to answer reads of unfilled sparse bins.
    pub fn zero(self) -> (r: Storage)
        ensures
            r@ == zero_val(self),
            matches_kind(r@, self),
    {
        match self {
            StorageType::Double => Storage::Double(0),
            StorageType::Int => Storage::Int(0),
            StorageType::Weight => Storage::Weight(0, 0),
        }
    }

    /// The increment contributed by one observation of weight `w`.
    pub fn delta(self, w: i64) -> (r: Storage)
        requires
            self is Weight ==> in_i64(w * w),
        ensures
            r@ == delta_val(self, w as int),
            matches_kind(r@, self),
    {
        match self {
            StorageType::Double => Storage::Double(w),
            StorageType::Int => Storage::Int(w),
            StorageType::Weight => Storage::Weight(w, w * w),
        }
    }
}

impl Storage {
    /// Adds two cells of the same kind, componentwise. Mixing kinds is
    /// a programming error and is excluded by the precondition.
    pub fn add(self, other: Storage) -> (r: Storage)
        requires
            same_kind(self@, other@),
            add_fits(self@, other@),
        ensures
            r@ == add_val(self@, other@),
    {
        match (self, other) {
            (Storage::Double(a), Storage::Double(b)) => Storage::Double(a + b),
            (Storage::Int(a), Storage::Int(b)) => Storage::Int(a + b),
            (Storage::Weight(a, a2), Storage::Weight(b, b2)) => Storage::Weight(a + b, a2 + b2),
            _ => self,
        }
    }

    /// In-place variant of [`Storage::add`].
    pub fn add_assign(&mut self, other: Storage)
        requires
            same_kind(old(self)@, other@),
            add_fits(old(self)@, other@),
        ensures
            final(self)@ == add_val(old(self)@, other@),
    {
        let s = *self;
        *self = s.add(other);
    }
}

/// Whether two cells are of the same accumulator kind.
pub open spec fn same_kind(a: StoreVal, b: StoreVal) -> bool {
    match (a, b) {
        (StoreVal::Double(_), StoreVal::Double(_)) => true,
        (StoreVal::Int(_), StoreVal::Int(_)) => true,
        (StoreVal::Weight(_, _), StoreVal::Weight(_, _)) => true,
        _ => false,
    }
}

/// Componentwise sum of two cells of the same kind.
pub open spec fn add_val(a: StoreVal, b: StoreVal) -> StoreVal {
    match (a, b) {
        (StoreVal::Double(x), StoreVal::Double(y)) => StoreVal::Double(x + y),
        (StoreVal::Int(x), StoreVal::Int(y)) => StoreVal::Int(x + y),
        (StoreVal::Weight(x, x2), StoreVal::Weight(y, y2)) => StoreVal::Weight(x + y, x2 + y2),
        _ => a,
    }
}

/// Whether the componentwise sum stays within the machine range.
pub open spec fn add_fits(a: StoreVal, b: StoreVal) -> bool {
    match (a, b) {
        (StoreVal::Double(x), StoreVal::Double(y)) => in_i64(x + y),
        (StoreVal::Int(x), StoreVal::Int(y)) => in_i64(x + y),
        (StoreVal::Weight(x, x2), StoreVal::Weight(y, y2)) => in_i64(x + y) && in_i64(x2 + y2),
        _ => true,
    }
}

} // verus!
