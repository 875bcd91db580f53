//! The expression side of a plan. Plan operators carry references into a
//! separate expression arena; the plan core stores and threads these as
//! opaque payloads and never evaluates them.

use vstd::prelude::*;
use crate::arena::Arena;
use crate::arena::Node;

verus! {

/// An expression node. The plan core treats expressions as opaque data,
/// so only a minimal set of forms is kept.
pub enum AExpr {
    /// A reference to a column by name.
    Column(String),
    /// An integer literal.
    Literal(i64),
}

impl AExpr {
    /// An exact copy of this expression node.
    pub fn duplicate(&self) -> (r: Self)
        ensures
            r == *self,
    {
        match self {
            AExpr::Column(name) => AExpr::Column(name.clone()),
            AExpr::Literal(v) => AExpr::Literal(*v),
        }
    }
}

/// A reference from a plan operator's payload into the paired expression
/// arena.
#[derive(Clone, Copy, PartialEq, Eq, Structural, Debug)]
pub struct ExprIR {
    pub node: Node,
}

impl ExprIR {
    /// A reference to the expression stored under `node`.
    pub fn new(node: Node) -> (r: Self)
        ensures
            r.node == node,
    {
        ExprIR { node }
    }
}

/// An exact copy of an expression arena, entry for entry.
pub fn copy_expr_arena(a: &Arena<AExpr>) -> (r: Arena<AExpr>)
    ensures
        r@ == a@,
{
    let n = a.len();
    let mut r: Arena<AExpr> = Arena::with_capacity(n);
    let mut i: usize = 0;
    while i < n
        invariant
            i <= n,
            n == a@.len(),
            r@ == a@.subrange(0, i as int),
        decreases n - i,
    {
        r.add(a.get(Node(i)).duplicate());
        i = i + 1;
    }
    assert(r@ == a@);
    r
}

} // verus!
