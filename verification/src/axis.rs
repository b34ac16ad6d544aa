//! The axis abstraction: construction-time failures, the tagged union
//! over the four axis kinds, and value-to-index dispatch.
//!
//! Every axis owns a fixed bin layout that reserves slots for values
//! outside its range. Continuous axes (uniform, variable) lay their
//! slots out as `[bin_0 .. bin_{n-1}, underflow, overflow]`; discrete
//! axes (integer, category) reserve a single combined under-/overflow
//! slot at index 0 and place their bins at `1..=n`, so that the bin
//! set can grow by appending without renumbering.

use vstd::prelude::*;

use crate::category::{name_slot, Category};
use crate::integer::Integer;
use crate::uniform::Uniform;
use crate::variable::Variable;

verus! {

/// Why an axis could not be constructed, or why a value could not be
/// used to index one.
#[derive(Clone, Copy, PartialEq, Eq, Structural, Debug)]
pub enum AxisError {
    /// The number of bins must be positive and non-zero.
    InvalidNumberOfBins,
    /// The axis step size must be non-zero and positive.
    InvalidStepSize,
    /// A variable axis needs at least two bin edges.
    InvalidNumberOfBinEdges,
    /// The list of axis bin edges must be strictly increasing.
    FailedToSortBins,
    /// The value lies outside every bin of the axis.
    FailedToFindBinIndex,
    /// The value's type cannot be used to index this axis kind.
    InvalidValueType,
}

/// The tagged union over the four axis kinds. A histogram holds one
/// `Axes` value per dimension and dispatches on it with a single
/// match at each call site.
#[derive(Clone, PartialEq, Eq, Debug)]
pub enum Axes {
    Uniform(Uniform),
    Variable(Variable),
    Category(Category),
    Integer(Integer),
}

impl Axes {
    /// The construction invariant of the underlying axis.
    pub open spec fn wf(self) -> bool {
        match self {
            Axes::Uniform(a) => a.wf(),
            Axes::Variable(a) => a.wf(),
            Axes::Category(a) => a.wf(),
            Axes::Integer(a) => a.wf(),
        }
    }

    /// The number of bins of the underlying axis, with or without its
    /// flow slots.
    pub open spec fn num_bins_spec(self, flow: bool) -> int {
        match self {
            Axes::Uniform(a) => a.num_bins_spec(flow),
            Axes::Variable(a) => a.num_bins_spec(flow),
            Axes::Category(a) => a.num_bins_spec(flow),
            Axes::Integer(a) => a.num_bins_spec(flow),
        }
    }

    /// The number of bins; `flow` includes the flow slots.
    pub fn num_bins(&self, flow: bool) -> (r: usize)
        requires
            self.wf(),
        ensures
            r == self.num_bins_spec(flow),
    {
        match self {
            Axes::Uniform(a) => a.num_bins(flow),
            Axes::Variable(a) => a.num_bins(flow),
            Axes::Category(a) => a.num_bins(flow),
            Axes::Integer(a) => a.num_bins(flow),
        }
    }

    /// The index of the slot that values below the axis range resolve
    /// to: the dedicated underflow slot of a continuous axis, or the
    /// combined flow slot 0 of a discrete axis.
    pub fn underflow(&self) -> (r: usize)
        requires
            self.wf(),
        ensures
            r == match self {
                Axes::Uniform(a) => a.num as int,
                Axes::Variable(a) => a.bins@.len() as int,
                Axes::Category(_) => 0int,
                Axes::Integer(_) => 0int,
            },
    {
        match self {
            Axes::Uniform(a) => a.underflow(),
            Axes::Variable(a) => a.underflow(),
            Axes::Category(a) => a.underflow(),
            Axes::Integer(a) => a.underflow(),
        }
    }

    /// The index of the slot that values above the axis range resolve
    /// to: the dedicated overflow slot of a continuous axis, or the
    /// combined flow slot 0 of a discrete axis.
    pub fn overflow(&self) -> (r: usize)
        requires
            self.wf(),
        ensures
            r == match self {
                Axes::Uniform(a) => a.num + 1int,
                Axes::Variable(a) => a.bins@.len() + 1int,
                Axes::Category(_) => 0int,
                Axes::Integer(_) => 0int,
            },
    {
        match self {
            Axes::Uniform(a) => a.overflow(),
            Axes::Variable(a) => a.overflow(),
            Axes::Category(a) => a.overflow(),
            Axes::Integer(a) => a.overflow(),
        }
    }
}

/// Value-to-index dispatch over the axis kinds, one implementation
/// per value type: tick coordinates index the continuous axes,
/// integer keys the integer axis, and names the category axis. A
/// value type that does not fit the axis kind is a composition-level
/// failure, `InvalidValueType`.
pub trait AxisIndex<T> {
    /// The construction invariant of the axis.
    spec fn axis_wf(&self) -> bool;

    /// What indexing this axis with `value` returns.
    spec fn index_result(&self, value: T) -> Result<usize, AxisError>;

    /// Maps a value to its bin index, or reports that this axis kind
    /// cannot be indexed by this value type.
    fn index(&self, value: T) -> (r: Result<usize, AxisError>)
        requires
            self.axis_wf(),
        ensures
            r == self.index_result(value),
    ;
}

impl AxisIndex<i64> for Axes {
    open spec fn axis_wf(&self) -> bool {
        self.wf()
    }

    open spec fn index_result(&self, value: i64) -> Result<usize, AxisError> {
        match self {
            Axes::Uniform(a) => Ok(a.index_spec(value as int) as usize),
            Axes::Variable(a) => Ok(a.index_spec(value as int) as usize),
            _ => Err(AxisError::InvalidValueType),
        }
    }

    fn index(&self, value: i64) -> (r: Result<usize, AxisError>) {
        match self {
            Axes::Uniform(a) => Ok(a.index(value)),
            Axes::Variable(a) => Ok(a.index(value)),
            _ => Err(AxisError::InvalidValueType),
        }
    }
}

impl AxisIndex<i32> for Axes {
    open spec fn axis_wf(&self) -> bool {
        self.wf()
    }

    open spec fn index_result(&self, value: i32) -> Result<usize, AxisError> {
        match self {
            Axes::Integer(a) => Ok(a.index_spec(value as i64) as usize),
            _ => Err(AxisError::InvalidValueType),
        }
    }

    fn index(&self, value: i32) -> (r: Result<usize, AxisError>) {
        match self {
            Axes::Integer(a) => Ok(a.index(value as i64)),
            _ => Err(AxisError::InvalidValueType),
        }
    }
}

impl AxisIndex<String> for Axes {
    open spec fn axis_wf(&self) -> bool {
        self.wf()
    }

    open spec fn index_result(&self, value: String) -> Result<usize, AxisError> {
        match self {
            Axes::Category(a) => Ok(name_slot(a.names@, value@) as usize),
            _ => Err(AxisError::InvalidValueType),
        }
    }

    fn index(&self, value: String) -> (r: Result<usize, AxisError>) {
        match self {
            Axes::Category(a) => Ok(a.index(value)),
            _ => Err(AxisError::InvalidValueType),
        }
    }
}

} // verus!
