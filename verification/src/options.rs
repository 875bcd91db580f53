//! Operator option payloads. The transforms copy these unchanged; none of
//! them carries a node handle.

use vstd::prelude::*;
use crate::util::copy_vec;
use crate::util::copy_strings;

verus! {

/// Options of a projection-like operator (`Select`, `HStack`).
#[derive(Clone, Copy, PartialEq, Eq, Structural, Debug)]
pub struct ProjectionOptions {
    pub run_parallel: bool,
    pub duplicate_check: bool,
    pub should_broadcast: bool,
}

/// Options of a `Union` operator.
#[derive(Clone, Copy, PartialEq, Eq, Structural, Debug)]
pub struct UnionOptions {
    pub parallel: bool,
    pub rechunk: bool,
    pub maintain_order: bool,
}

/// Options of an `HConcat` operator.
#[derive(Clone, Copy, PartialEq, Eq, Structural, Debug)]
pub struct HConcatOptions {
    pub parallel: bool,
}

/// The join flavour of a `Join` operator.
#[derive(Clone, Copy, PartialEq, Eq, Structural, Debug)]
pub enum JoinType {
    Inner,
    Left,
    Right,
    Full,
    Cross,
}

/// Options of a `Join` operator.
#[derive(Clone, Copy, PartialEq, Eq, Structural, Debug)]
pub struct JoinOptionsIR {
    pub allow_parallel: bool,
    pub force_parallel: bool,
    pub how: JoinType,
}

/// Options of a `GroupBy` operator.
#[derive(Clone, Copy, Debug)]
pub struct GroupbyOptions {
    pub slice: Option<(i64, usize)>,
}

/// Which duplicate row a `Distinct` operator keeps.
#[derive(Clone, Copy, PartialEq, Eq, Structural, Debug)]
pub enum KeepStrategy {
    First,
    Last,
    Any,
}

/// Per-column ordering options of a `Sort` operator.
pub struct SortMultipleOptions {
    pub descending: Vec<bool>,
    pub nulls_last: Vec<bool>,
    pub multithreaded: bool,
    pub maintain_order: bool,
}

/// The abstract value of [`SortMultipleOptions`].
#[verifier::ext_equal]
pub struct SortMultipleOptionsV {
    pub descending: Seq<bool>,
    pub nulls_last: Seq<bool>,
    pub multithreaded: bool,
    pub maintain_order: bool,
}

impl View for SortMultipleOptions {
    type V = SortMultipleOptionsV;

    open spec fn view(&self) -> SortMultipleOptionsV {
        SortMultipleOptionsV {
            descending: self.descending@,
            nulls_last: self.nulls_last@,
            multithreaded: self.multithreaded,
            maintain_order: self.maintain_order,
        }
    }
}

impl SortMultipleOptions {
    /// A copy of these options.
    pub fn duplicate(&self) -> (r: Self)
        ensures
            r@ == self@,
    {
        SortMultipleOptions {
            descending: copy_vec(&self.descending),
            nulls_last: copy_vec(&self.nulls_last),
            multithreaded: self.multithreaded,
            maintain_order: self.maintain_order,
        }
    }
}

/// Options of a `Distinct` operator.
pub struct DistinctOptionsIR {
    /// The columns that decide sameness; all columns when absent.
    pub subset: Option<Vec<String>>,
    pub maintain_order: bool,
    pub keep_strategy: KeepStrategy,
}

/// The abstract value of [`DistinctOptionsIR`].
#[verifier::ext_equal]
pub struct DistinctOptionsV {
    pub subset: Option<Seq<String>>,
    pub maintain_order: bool,
    pub keep_strategy: KeepStrategy,
}

impl View for DistinctOptionsIR {
    type V = DistinctOptionsV;

    open spec fn view(&self) -> DistinctOptionsV {
        DistinctOptionsV {
            subset: match self.subset {
                Some(ref s) => Some(s@),
                None => None,
            },
            maintain_order: self.maintain_order,
            keep_strategy: self.keep_strategy,
        }
    }
}

impl DistinctOptionsIR {
    /// A copy of these options.
    pub fn duplicate(&self) -> (r: Self)
        ensures
            r@ == self@,
    {
        DistinctOptionsIR {
            subset: match &self.subset {
                Some(s) => Some(copy_strings(s)),
                None => None,
            },
            maintain_order: self.maintain_order,
            keep_strategy: self.keep_strategy,
        }
    }
}

/// Where a `Sink` operator sends its stream.
pub enum SinkTypeIR {
    /// Collect in memory.
    Memory,
    /// Write to the file at the given path.
    File { path: String },
}

impl SinkTypeIR {
    /// An exact copy of this payload.
    pub fn duplicate(&self) -> (r: Self)
        ensures
            r == *self,
    {
        match self {
            SinkTypeIR::Memory => SinkTypeIR::Memory,
            SinkTypeIR::File { path } => SinkTypeIR::File { path: path.clone() },
        }
    }
}

} // verus!
