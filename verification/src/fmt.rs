//! The indented tree rendering of a plan: one line per node, children
//! indented two spaces deeper than their parent, depth first from the
//! root.

use vstd::prelude::*;
use crate::arena::Arena;
use crate::arena::Node;
use crate::ir::IR;
use crate::ir::wf_arena;
use crate::ir::wf_ir;
use crate::laws::tree_tag;
use crate::tree::PlanTree;
use crate::tree::child_trees;
use crate::tree::lemma_child_trees_pointwise;
use crate::tree::tree_of;

verus! {

/// Two spaces of indentation per level of depth.
pub open spec fn indent_text(depth: int) -> Seq<char>
    decreases depth,
{
    if depth <= 0 {
        Seq::empty()
    } else {
        indent_text(depth - 1) + "  "@
    }
}

/// One node's own line: its indentation, its operator tag, a line break.
pub open spec fn node_line(t: PlanTree, depth: int) -> Seq<char> {
    indent_text(depth) + tree_tag(t) + "\n"@
}

/// The rendering of a whole tree: the root's line, then each subtree
/// rendered one level deeper, in input order.
pub open spec fn tree_fmt(t: PlanTree, depth: int) -> Seq<char>
    decreases t,
{
    match t {
        PlanTree::Slice { input, .. } => node_line(t, depth) + tree_fmt(*input, depth + 1),
        PlanTree::Filter { input, .. } => node_line(t, depth) + tree_fmt(*input, depth + 1),
        PlanTree::Scan { .. } => node_line(t, depth),
        PlanTree::DataFrameScan { .. } => node_line(t, depth),
        PlanTree::PlaceholderScan { .. } => node_line(t, depth),
        PlanTree::SimpleProjection { input, .. } => node_line(t, depth) + tree_fmt(
            *input,
            depth + 1,
        ),
        PlanTree::Select { input, .. } => node_line(t, depth) + tree_fmt(*input, depth + 1),
        PlanTree::Sort { input, .. } => node_line(t, depth) + tree_fmt(*input, depth + 1),
        PlanTree::Cache { input, .. } => node_line(t, depth) + tree_fmt(*input, depth + 1),
        PlanTree::GroupBy { input, .. } => node_line(t, depth) + tree_fmt(*input, depth + 1),
        PlanTree::Join { input_left, input_right, .. } => node_line(t, depth) + tree_fmt(
            *input_left,
            depth + 1,
        ) + tree_fmt(*input_right, depth + 1),
        PlanTree::HStack { input, .. } => node_line(t, depth) + tree_fmt(*input, depth + 1),
        PlanTree::Distinct { input, .. } => node_line(t, depth) + tree_fmt(*input, depth + 1),
        PlanTree::MapFunction { input, .. } => node_line(t, depth) + tree_fmt(*input, depth + 1),
        PlanTree::Union { inputs, .. } => node_line(t, depth) + trees_fmt(inputs, depth + 1),
        PlanTree::HConcat { inputs, .. } => node_line(t, depth) + trees_fmt(inputs, depth + 1),
        PlanTree::ExtContext { input, contexts, .. } => node_line(t, depth) + tree_fmt(
            *input,
            depth + 1,
        ) + trees_fmt(contexts, depth + 1),
        PlanTree::Sink { input, .. } => node_line(t, depth) + tree_fmt(*input, depth + 1),
        PlanTree::SinkMultiple { inputs } => node_line(t, depth) + trees_fmt(inputs, depth + 1),
        PlanTree::MergeSorted { input_left, input_right, .. } => node_line(t, depth) + tree_fmt(
            *input_left,
            depth + 1,
        ) + tree_fmt(*input_right, depth + 1),
        PlanTree::Invalid => node_line(t, depth),
    }
}

/// The renderings of a list of trees, one after the other.
pub open spec fn trees_fmt(ts: Seq<PlanTree>, depth: int) -> Seq<char>
    decreases ts,
{
    if ts.len() == 0 {
        Seq::empty()
    } else {
        tree_fmt(ts[0], depth) + trees_fmt(ts.drop_first(), depth)
    }
}

/// Rendering one more tree appends its rendering.
proof fn lemma_trees_fmt_take(ts: Seq<PlanTree>, depth: int, k: int)
    requires
        0 <= k < ts.len(),
    ensures
        trees_fmt(ts.take(k + 1), depth) == trees_fmt(ts.take(k), depth) + tree_fmt(ts[k], depth),
    decreases ts,
{
    if k == 0 {
        assert(ts.take(1)[0] == ts[0]);
        assert(ts.take(1).drop_first() =~= Seq::<PlanTree>::empty());
        assert(ts.take(0) =~= Seq::<PlanTree>::empty());
        assert(trees_fmt(ts.take(1), depth) =~= trees_fmt(ts.take(0), depth) + tree_fmt(
            ts[0],
            depth,
        ));
    } else {
        let rest = ts.drop_first();
        lemma_trees_fmt_take(rest, depth, k - 1);
        assert(ts.take(k + 1)[0] == ts[0]);
        assert(ts.take(k)[0] == ts[0]);
        assert(ts.take(k + 1).drop_first() =~= rest.take(k));
        assert(ts.take(k).drop_first() =~= rest.take(k - 1));
        assert(rest[k - 1] == ts[k]);
        assert(trees_fmt(ts.take(k + 1), depth) =~= trees_fmt(ts.take(k), depth) + tree_fmt(
            ts[k],
            depth,
        ));
    }
}

/// Appends `depth` levels of indentation.
#[verifier::loop_isolation(false)]
fn append_indent(out: &mut String, depth: usize)
    ensures
        final(out)@ == old(out)@ + indent_text(depth as int),
{
    proof {
        assert(out@ =~= old(out)@ + indent_text(0));
    }
    let mut k: usize = 0;
    while k < depth
        invariant
            k <= depth,
            out@ == old(out)@ + indent_text(k as int),
        decreases depth - k,
    {
        out.append("  ");
        proof {
            assert(out@ =~= old(out)@ + indent_text(k as int + 1));
        }
        k = k + 1;
    }
}

/// Appends the rendering of the subtree of `node`, indented by `depth`.
/// The depth never exceeds the number of ancestors, which the arena
/// ordering bounds by the arena's length.
#[verifier::loop_isolation(false)]
pub(crate) fn fmt_node(node: Node, arena: &Arena<IR>, depth: usize, out: &mut String)
    requires
        wf_arena(arena@),
        node.0 + depth < arena@.len(),
    ensures
        final(out)@ == old(out)@ + tree_fmt(tree_of(arena@, node.0 as int), depth as int),
    decreases node.0,
{
    proof {
        assert(wf_ir(arena@[node.0 as int], node.0 as int));
        arena.lemma_len_bound();
    }
    let ghost t = tree_of(arena@, node.0 as int);
    append_indent(out, depth);
    let ir = arena.get(node);
    out.append(ir.variant_name());
    out.append("\n");
    proof {
        assert(out@ =~= old(out)@ + node_line(t, depth as int));
    }
    match ir {
        IR::Slice { input, .. } => {
            fmt_node(*input, arena, depth + 1, out);
            proof {
                assert(out@ =~= old(out)@ + tree_fmt(t, depth as int));
            }
        },
        IR::Filter { input, .. } => {
            fmt_node(*input, arena, depth + 1, out);
            proof {
                assert(out@ =~= old(out)@ + tree_fmt(t, depth as int));
            }
        },
        IR::Scan { .. } => {
            proof {
                assert(out@ =~= old(out)@ + tree_fmt(t, depth as int));
            }
        },
        IR::DataFrameScan { .. } => {
            proof {
                assert(out@ =~= old(out)@ + tree_fmt(t, depth as int));
            }
        },
        IR::PlaceholderScan { .. } => {
            proof {
                assert(out@ =~= old(out)@ + tree_fmt(t, depth as int));
            }
        },
        IR::SimpleProjection { input, .. } => {
            fmt_node(*input, arena, depth + 1, out);
            proof {
                assert(out@ =~= old(out)@ + tree_fmt(t, depth as int));
            }
        },
        IR::Select { input, .. } => {
            fmt_node(*input, arena, depth + 1, out);
            proof {
                assert(out@ =~= old(out)@ + tree_fmt(t, depth as int));
            }
        },
        IR::Sort { input, .. } => {
            fmt_node(*input, arena, depth + 1, out);
            proof {
                assert(out@ =~= old(out)@ + tree_fmt(t, depth as int));
            }
        },
        IR::Cache { input, .. } => {
            fmt_node(*input, arena, depth + 1, out);
            proof {
                assert(out@ =~= old(out)@ + tree_fmt(t, depth as int));
            }
        },
        IR::GroupBy { input, .. } => {
            fmt_node(*input, arena, depth + 1, out);
            proof {
                assert(out@ =~= old(out)@ + tree_fmt(t, depth as int));
            }
        },
        IR::Join { input_left, input_right, .. } => {
            fmt_node(*input_left, arena, depth + 1, out);
            fmt_node(*input_right, arena, depth + 1, out);
            proof {
                assert(out@ =~= old(out)@ + tree_fmt(t, depth as int));
            }
        },
        IR::HStack { input, .. } => {
            fmt_node(*input, arena, depth + 1, out);
            proof {
                assert(out@ =~= old(out)@ + tree_fmt(t, depth as int));
            }
        },
        IR::Distinct { input, .. } => {
            fmt_node(*input, arena, depth + 1, out);
            proof {
                assert(out@ =~= old(out)@ + tree_fmt(t, depth as int));
            }
        },
        IR::MapFunction { input, .. } => {
            fmt_node(*input, arena, depth + 1, out);
            proof {
                assert(out@ =~= old(out)@ + tree_fmt(t, depth as int));
            }
        },
        IR::Union { inputs, .. } => {
            fmt_children(inputs, arena, depth, out, Ghost(node.0 as int));
            proof {
                assert(out@ =~= old(out)@ + tree_fmt(t, depth as int));
            }
        },
        IR::HConcat { inputs, .. } => {
            fmt_children(inputs, arena, depth, out, Ghost(node.0 as int));
            proof {
                assert(out@ =~= old(out)@ + tree_fmt(t, depth as int));
            }
        },
        IR::ExtContext { input, contexts, .. } => {
            fmt_node(*input, arena, depth + 1, out);
            fmt_children(contexts, arena, depth, out, Ghost(node.0 as int));
            proof {
                assert(out@ =~= old(out)@ + tree_fmt(t, depth as int));
            }
        },
        IR::Sink { input, .. } => {
            fmt_node(*input, arena, depth + 1, out);
            proof {
                assert(out@ =~= old(out)@ + tree_fmt(t, depth as int));
            }
        },
        IR::SinkMultiple { inputs } => {
            fmt_children(inputs, arena, depth, out, Ghost(node.0 as int));
            proof {
                assert(out@ =~= old(out)@ + tree_fmt(t, depth as int));
            }
        },
        IR::MergeSorted { input_left, input_right, .. } => {
            fmt_node(*input_left, arena, depth + 1, out);
            fmt_node(*input_right, arena, depth + 1, out);
            proof {
                assert(out@ =~= old(out)@ + tree_fmt(t, depth as int));
            }
        },
        IR::Invalid => {
            proof {
                assert(out@ =~= old(out)@ + tree_fmt(t, depth as int));
            }
        },
    }
}

/// Appends the renderings of a multi-input node's subtrees, one level
/// deeper, in input order.
#[verifier::loop_isolation(false)]
fn fmt_children(
    inputs: &Vec<Node>,
    arena: &Arena<IR>,
    depth: usize,
    out: &mut String,
    Ghost(bound): Ghost<int>,
)
    requires
        wf_arena(arena@),
        forall|j: int| 0 <= j < inputs@.len() ==> (#[trigger] inputs@[j]).0 < bound,
        bound + depth < arena@.len(),
        0 <= bound,
    ensures
        final(out)@ == old(out)@ + trees_fmt(
            child_trees(arena@, inputs@, bound),
            depth as int + 1,
        ),
    decreases bound, inputs@.len(),
{
    let ghost cts = child_trees(arena@, inputs@, bound);
    proof {
        arena.lemma_len_bound();
        lemma_child_trees_pointwise(arena@, inputs@, bound);
        assert(out@ =~= old(out)@ + trees_fmt(cts.take(0), depth as int + 1));
    }
    let mut k: usize = 0;
    while k < inputs.len()
        invariant
            k <= inputs@.len(),
            out@ == old(out)@ + trees_fmt(cts.take(k as int), depth as int + 1),
        decreases inputs@.len() - k,
    {
        proof {
            assert(inputs@[k as int].0 < bound);
        }
        fmt_node(inputs[k], arena, depth + 1, out);
        proof {
            assert(cts[k as int] == tree_of(arena@, inputs@[k as int].0 as int));
            lemma_trees_fmt_take(cts, depth as int + 1, k as int);
            assert(out@ =~= old(out)@ + trees_fmt(cts.take(k as int + 1), depth as int + 1));
        }
        k = k + 1;
    }
    proof {
        assert(cts.take(inputs@.len() as int) =~= cts);
    }
}

} // verus!
