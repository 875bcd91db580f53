//! The errors a bind can raise. Both fail the whole bind atomically: no
//! partial plan is ever handed out.

use vstd::prelude::*;

verus! {

/// Why binding a template to data failed.
#[derive(Clone, Copy, PartialEq, Eq, Structural, Debug)]
pub enum PlanError {
    /// A placeholder expects `expected` columns but the supplied data has
    /// `got`.
    SchemaMismatch { expected: usize, got: usize },
    /// The node supplied as data is not a concrete in-memory dataset.
    InvalidBindTarget,
}

} // verus!
