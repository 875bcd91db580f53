//! The plan facade: a root handle plus the two arenas that give it
//! meaning, the borrowed view of the same, and the public entry points of
//! the two structural transforms.

use vstd::prelude::*;
use crate::arena::Arena;
use crate::arena::Node;
use crate::error::PlanError;
use crate::expr::AExpr;
use crate::expr::copy_expr_arena;
use crate::fmt::fmt_node;
use crate::fmt::tree_fmt;
use crate::ir::IR;
use crate::ir::exprs_ok;
use crate::ir::ir_exprs_ok;
use crate::ir::ir_tag;
use crate::ir::wf_arena;
use crate::ir::wf_ir;
use crate::schema::DataFrame;
use crate::transform::convert_to_placeholder;
use crate::transform::replace_placeholder;
use crate::tree::PlanTree;
use crate::tree::bind_tree;
use crate::tree::template_tree;
use crate::tree::tree_of;

verus! {

/// A whole logical plan: the root node and the arenas that own all plan
/// and expression nodes it refers to.
pub struct IRPlan {
    pub lp_top: Node,
    pub lp_arena: Arena<IR>,
    pub expr_arena: Arena<AExpr>,
}

/// A non-owning view of a plan: the root node with borrowed arenas, for
/// read-only traversal without cloning.
#[derive(Clone, Copy)]
pub struct IRPlanRef<'a> {
    pub lp_top: Node,
    pub lp_arena: &'a Arena<IR>,
    pub expr_arena: &'a Arena<AExpr>,
}

/// The dataset leaf that wrapping `df` into a fresh single-node arena
/// denotes.
pub open spec fn df_scan_tree(df: DataFrame) -> PlanTree {
    PlanTree::DataFrameScan { df: df@, schema: df@.schema, output_schema: None }
}

/// One line per arena entry: the operator tag of each of the first `n`
/// entries, each followed by a line break, in arena order.
pub open spec fn describe_lines(a: Seq<IR>, n: int) -> Seq<char>
    decreases n,
{
    if n <= 0 {
        Seq::empty()
    } else {
        describe_lines(a, n - 1) + ir_tag(a[n - 1]) + seq!['\n']
    }
}

impl IRPlan {
    /// The plan invariant: the root is in bounds, every node refers only
    /// to entries below itself, and every expression reference in a node
    /// payload is a valid index into the expression arena. A planner
    /// building bottom-up establishes this, and both transforms keep it.
    pub open spec fn wf(&self) -> bool {
        &&& self.lp_top.0 < self.lp_arena@.len()
        &&& wf_arena(self.lp_arena@)
        &&& exprs_ok(self.lp_arena@, self.expr_arena@.len() as int)
    }

    /// The tree this plan denotes.
    pub open spec fn tree(&self) -> PlanTree {
        tree_of(self.lp_arena@, self.lp_top.0 as int)
    }

    /// Decides the plan invariant [`IRPlan::wf`], entry by entry: useful
    /// before trusting a plan that arrived from outside, say by
    /// deserialization.
    pub fn is_wf(&self) -> (r: bool)
        ensures
            r == self.wf(),
    {
        if self.lp_top.0 >= self.lp_arena.len() {
            return false;
        }
        let m = self.expr_arena.len();
        let n = self.lp_arena.len();
        let mut i: usize = 0;
        while i < n
            invariant
                i <= n,
                n == self.lp_arena@.len(),
                m == self.expr_arena@.len(),
                forall|j: int| 0 <= j < i ==> wf_ir(#[trigger] self.lp_arena@[j], j),
                forall|j: int| 0 <= j < i ==> ir_exprs_ok(#[trigger] self.lp_arena@[j], m as int),
            decreases n - i,
        {
            let ir = self.lp_arena.get(Node(i));
            if !ir.inputs_below(i) {
                proof {
                    assert(!wf_arena(self.lp_arena@));
                }
                return false;
            }
            if !ir.exprs_valid(m) {
                proof {
                    assert(!exprs_ok(self.lp_arena@, m as int));
                }
                return false;
            }
            i = i + 1;
        }
        true
    }

    /// A plan from its parts.
    pub fn new(top: Node, ir_arena: Arena<IR>, expr_arena: Arena<AExpr>) -> (r: Self)
        ensures
            r.lp_top == top,
            r.lp_arena@ == ir_arena@,
            r.expr_arena@ == expr_arena@,
    {
        IRPlan { lp_top: top, lp_arena: ir_arena, expr_arena }
    }

    /// The root operator.
    pub fn root(&self) -> (r: &IR)
        requires
            self.lp_top.0 < self.lp_arena@.len(),
        ensures
            *r == self.lp_arena@[self.lp_top.0 as int],
    {
        self.lp_arena.get(self.lp_top)
    }

    /// A borrowed view of this plan.
    pub fn as_ref(&self) -> (r: IRPlanRef<'_>)
        ensures
            r.lp_top == self.lp_top,
            r.lp_arena@ == self.lp_arena@,
            r.expr_arena@ == self.expr_arena@,
    {
        IRPlanRef {
            lp_top: self.lp_top,
            lp_arena: &self.lp_arena,
            expr_arena: &self.expr_arena,
        }
    }

    /// A one-line-per-node textual description of the plan's arena.
    pub fn describe(&self) -> (r: String)
        ensures
            r@ == describe_lines(self.lp_arena@, self.lp_arena@.len() as int),
    {
        self.as_ref().describe()
    }

    /// The indented tree rendering of the plan, depth first from the
    /// root, children two spaces deeper than their parent.
    pub fn describe_tree_format(&self) -> (r: String)
        requires
            self.lp_top.0 < self.lp_arena@.len(),
            wf_arena(self.lp_arena@),
        ensures
            r@ == tree_fmt(self.tree(), 0),
    {
        self.as_ref().describe_tree_format()
    }

    /// Converts this plan to a reusable template: a new plan of the same
    /// shape in which every concrete dataset leaf has been replaced by a
    /// placeholder carrying the same schema, every other node is
    /// re-created with its payload unchanged, and the expression arena is
    /// copied as it stands. The source plan is read, never changed, and
    /// the conversion cannot fail.
    pub fn to_template(&self) -> (r: Self)
        requires
            self.wf(),
        ensures
            r.wf(),
            r.tree() == template_tree(self.tree()),
            r.expr_arena@ == self.expr_arena@,
    {
        let mut new_arena: Arena<IR> = Arena::with_capacity(self.lp_arena.len());
        let new_top = convert_to_placeholder(self.lp_top, &self.lp_arena, &mut new_arena);
        proof {
            let m = self.expr_arena@.len() as int;
            assert(exprs_ok(Seq::<IR>::empty(), m));
        }
        IRPlan {
            lp_top: new_top,
            lp_arena: new_arena,
            expr_arena: copy_expr_arena(&self.expr_arena),
        }
    }

    /// Binds a template to data: a new plan in which every placeholder
    /// has been replaced by a copy of the node `data_node` of
    /// `data_arena`. At each substitution the data must be a concrete
    /// dataset leaf whose column count equals the placeholder's;
    /// otherwise the whole bind fails with the first violation and no
    /// plan is produced, leaving the template untouched and reusable. A
    /// template without placeholders binds to anything.
    ///
    /// Deliberately, only the column *count* is validated — not column
    /// names or types — so a template can be rebound positionally to a
    /// differently named but structurally compatible dataset.
    pub fn bind_data(&self, data_node: Node, data_arena: &Arena<IR>) -> (res: Result<
        Self,
        PlanError,
    >)
        requires
            self.wf(),
            data_node.0 < data_arena@.len(),
        ensures
            match res {
                Ok(p) => p.wf() && bind_tree(
                    self.tree(),
                    tree_of(data_arena@, data_node.0 as int),
                ) == Ok::<PlanTree, PlanError>(p.tree()) && p.expr_arena@ == self.expr_arena@,
                Err(e) => bind_tree(self.tree(), tree_of(data_arena@, data_node.0 as int))
                    == Err::<PlanTree, PlanError>(e),
            },
    {
        let mut new_arena: Arena<IR> = Arena::with_capacity(self.lp_arena.len());
        match replace_placeholder(
            self.lp_top,
            data_node,
            data_arena,
            &self.lp_arena,
            &mut new_arena,
        ) {
            Ok(new_top) => {
                proof {
                    let m = self.expr_arena@.len() as int;
                    assert(exprs_ok(Seq::<IR>::empty(), m));
                }
                Ok(
                    IRPlan {
                        lp_top: new_top,
                        lp_arena: new_arena,
                        expr_arena: copy_expr_arena(&self.expr_arena),
                    },
                )
            },
            Err(e) => Err(e),
        }
    }

    /// Binds a template to a dataset: wraps `df` into a fresh single-node
    /// arena as a concrete dataset leaf and binds to that node.
    pub fn bind_to_df(&self, df: DataFrame) -> (res: Result<Self, PlanError>)
        requires
            self.wf(),
        ensures
            match res {
                Ok(p) => p.wf() && bind_tree(self.tree(), df_scan_tree(df)) == Ok::<
                    PlanTree,
                    PlanError,
                >(p.tree()) && p.expr_arena@ == self.expr_arena@,
                Err(e) => bind_tree(self.tree(), df_scan_tree(df)) == Err::<PlanTree, PlanError>(
                    e,
                ),
            },
    {
        let schema = df.schema().duplicate();
        let mut data_arena: Arena<IR> = Arena::with_capacity(1);
        let ghost df_snapshot = df;
        let data_node = data_arena.add(IR::DataFrameScan { df, schema, output_schema: None });
        proof {
            assert(tree_of(data_arena@, 0) == df_scan_tree(df_snapshot));
        }
        self.bind_data(data_node, &data_arena)
    }
}

impl<'a> IRPlanRef<'a> {
    /// The tree this view denotes.
    pub open spec fn tree(self) -> PlanTree {
        tree_of(self.lp_arena@, self.lp_top.0 as int)
    }

    /// The indented tree rendering of the plan, depth first from the
    /// root, children two spaces deeper than their parent.
    pub fn describe_tree_format(self) -> (r: String)
        requires
            self.lp_top.0 < self.lp_arena@.len(),
            wf_arena(self.lp_arena@),
        ensures
            r@ == tree_fmt(self.tree(), 0),
    {
        let mut s = String::new();
        fmt_node(self.lp_top, self.lp_arena, 0, &mut s);
        proof {
            assert(s@ =~= tree_fmt(self.tree(), 0));
        }
        s
    }

    /// The root operator.
    pub fn root(self) -> (r: &'a IR)
        requires
            self.lp_top.0 < self.lp_arena@.len(),
        ensures
            *r == self.lp_arena@[self.lp_top.0 as int],
    {
        self.lp_arena.get(self.lp_top)
    }

    /// The same view rooted at another node of the same arenas.
    pub fn with_root(self, root: Node) -> (r: Self)
        ensures
            r.lp_top == root,
            r.lp_arena@ == self.lp_arena@,
            r.expr_arena@ == self.expr_arena@,
    {
        IRPlanRef { lp_top: root, lp_arena: self.lp_arena, expr_arena: self.expr_arena }
    }

    /// A one-line-per-node textual description of the plan's arena.
    pub fn describe(self) -> (r: String)
        ensures
            r@ == describe_lines(self.lp_arena@, self.lp_arena@.len() as int),
    {
        let mut s = String::new();
        let n = self.lp_arena.len();
        let mut i: usize = 0;
        while i < n
            invariant
                i <= n,
                n == self.lp_arena@.len(),
                s@ == describe_lines(self.lp_arena@, i as int),
            decreases n - i,
        {
            let ir = self.lp_arena.get(Node(i));
            s.append(ir.variant_name());
            s.append("\n");
            proof {
                reveal_strlit("\n");
                assert(s@ =~= describe_lines(self.lp_arena@, i as int + 1));
            }
            i = i + 1;
        }
        s
    }
}

} // verus!
