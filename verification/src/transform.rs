//! The executable structural transforms. Both walk a source plan depth
//! first, fully rebuilding every visited node into a fresh destination
//! arena: children are appended strictly before their parent, so the
//! destination satisfies the arena ordering invariant the moment each
//! parent is recorded, and the walk itself terminates because a
//! well-formed source node only refers to entries below itself. The
//! recursion is native, so its stack depth equals the plan's depth; a
//! caller handing in extraordinarily deep plans must provide a stack to
//! match.

use vstd::prelude::*;
use crate::arena::Arena;
use crate::arena::Node;
use crate::ir::IR;
use crate::ir::exprs_ok;
use crate::ir::ir_exprs_ok;
use crate::ir::wf_arena;
use crate::ir::wf_ir;
use crate::schema::opt_schema_view;
use crate::error::PlanError;
use crate::tree::PlanTree;
use crate::tree::bind_tree;
use crate::tree::bind_trees;
use crate::tree::child_tree;
use crate::tree::child_trees;
use crate::tree::extends;
use crate::tree::lemma_bind_trees_pointwise;
use crate::tree::lemma_bind_trees_prefix_err;
use crate::tree::lemma_bind_trees_push;
use crate::tree::lemma_child_trees_pointwise;
use crate::tree::lemma_template_trees_pointwise;
use crate::tree::lemma_tree_of_prefix;
use crate::tree::template_tree;
use crate::tree::template_trees;
use crate::tree::tree_of;
use crate::util::copy_vec;
use crate::util::copy_strings;

verus! {

/// Appending an entry whose handles stay below the former length keeps
/// an arena well formed.
pub proof fn lemma_wf_push(pre: Seq<IR>, x: IR)
    requires
        wf_arena(pre),
        wf_ir(x, pre.len() as int),
    ensures
        wf_arena(pre.push(x)),
{
    let pd = pre.push(x);
    assert forall|i: int| 0 <= i < pd.len() implies wf_ir(#[trigger] pd[i], i) by {
        if i < pre.len() {
            assert(pd[i] == pre[i]);
        } else {
            assert(pd[i] == x);
        }
    }
}

/// Appending an entry whose expression references are valid keeps the
/// whole arena's expression references valid.
pub proof fn lemma_exprs_ok_push(pre: Seq<IR>, x: IR, m: int)
    requires
        exprs_ok(pre, m),
        ir_exprs_ok(x, m),
    ensures
        exprs_ok(pre.push(x), m),
{
    let pd = pre.push(x);
    assert forall|i: int| 0 <= i < pd.len() implies ir_exprs_ok(#[trigger] pd[i], m) by {
        if i < pre.len() {
            assert(pd[i] == pre[i]);
        } else {
            assert(pd[i] == x);
        }
    }
}

/// A list of freshly rebuilt children: as many handles as the source
/// list, each valid in `pre` and denoting the template of the tree its
/// source handle denotes.
pub open spec fn rebuilt_children(oa: Seq<IR>, ins: Seq<Node>, pre: Seq<IR>, outs: Seq<Node>) -> bool {
    &&& outs.len() == ins.len()
    &&& forall|j: int|
        0 <= j < ins.len() ==> (#[trigger] outs[j]).0 < pre.len() && tree_of(
            pre,
            outs[j].0 as int,
        ) == template_tree(tree_of(oa, ins[j].0 as int))
}

/// The entry `x` is the correct template rebuild of `oa[node]` against
/// the destination arena `pre`: the same operator with every payload
/// carried over unchanged and every input handle replaced by a fresh
/// handle that denotes the template of the source input — except a
/// concrete dataset leaf, which is rebuilt as a placeholder of the same
/// schema.
pub open spec fn rebuilt_ok(oa: Seq<IR>, node: int, pre: Seq<IR>, x: IR) -> bool {
    match oa[node] {
        IR::Slice { input, offset, len } => {
            &&& x matches IR::Slice { input: ni, offset: o2, len: l2 }
            &&& ni.0 < pre.len()
            &&& tree_of(pre, ni.0 as int) == template_tree(tree_of(oa, input.0 as int))
            &&& o2 == offset
            &&& l2 == len
        },
        IR::Filter { input, predicate } => {
            &&& x matches IR::Filter { input: ni, predicate: p2 }
            &&& ni.0 < pre.len()
            &&& tree_of(pre, ni.0 as int) == template_tree(tree_of(oa, input.0 as int))
            &&& p2 == predicate
        },
        IR::Scan { sources, file_schema, predicate, output_schema } => {
            &&& x matches IR::Scan {
                sources: sc2,
                file_schema: f2,
                predicate: p2,
                output_schema: o2,
            }
            &&& sc2@ == sources@
            &&& f2@ == file_schema@
            &&& p2 == predicate
            &&& opt_schema_view(o2) == opt_schema_view(output_schema)
        },
        IR::DataFrameScan { df, schema, output_schema } => {
            &&& x matches IR::PlaceholderScan { schema: s2, output_schema: o2 }
            &&& s2@ == schema@
            &&& opt_schema_view(o2) == opt_schema_view(output_schema)
        },
        IR::PlaceholderScan { schema, output_schema } => {
            &&& x matches IR::PlaceholderScan { schema: s2, output_schema: o2 }
            &&& s2@ == schema@
            &&& opt_schema_view(o2) == opt_schema_view(output_schema)
        },
        IR::SimpleProjection { input, columns } => {
            &&& x matches IR::SimpleProjection { input: ni, columns: c2 }
            &&& ni.0 < pre.len()
            &&& tree_of(pre, ni.0 as int) == template_tree(tree_of(oa, input.0 as int))
            &&& c2@ == columns@
        },
        IR::Select { input, expr, schema, options } => {
            &&& x matches IR::Select { input: ni, expr: e2, schema: s2, options: p2 }
            &&& ni.0 < pre.len()
            &&& tree_of(pre, ni.0 as int) == template_tree(tree_of(oa, input.0 as int))
            &&& e2@ == expr@
            &&& s2@ == schema@
            &&& p2 == options
        },
        IR::Sort { input, by_column, slice, sort_options } => {
            &&& x matches IR::Sort { input: ni, by_column: b2, slice: sl2, sort_options: so2 }
            &&& ni.0 < pre.len()
            &&& tree_of(pre, ni.0 as int) == template_tree(tree_of(oa, input.0 as int))
            &&& b2@ == by_column@
            &&& sl2 == slice
            &&& so2@ == sort_options@
        },
        IR::Cache { input, id } => {
            &&& x matches IR::Cache { input: ni, id: id2 }
            &&& ni.0 < pre.len()
            &&& tree_of(pre, ni.0 as int) == template_tree(tree_of(oa, input.0 as int))
            &&& id2 == id
        },
        IR::GroupBy { input, keys, aggs, schema, maintain_order, options } => {
            &&& x matches IR::GroupBy {
                input: ni,
                keys: k2,
                aggs: a2,
                schema: s2,
                maintain_order: mo2,
                options: p2,
            }
            &&& ni.0 < pre.len()
            &&& tree_of(pre, ni.0 as int) == template_tree(tree_of(oa, input.0 as int))
            &&& k2@ == keys@
            &&& a2@ == aggs@
            &&& s2@ == schema@
            &&& mo2 == maintain_order
            &&& p2 == options
        },
        IR::Join { input_left, input_right, schema, left_on, right_on, options } => {
            &&& x matches IR::Join {
                input_left: nl,
                input_right: nr,
                schema: s2,
                left_on: l2,
                right_on: r2,
                options: p2,
            }
            &&& nl.0 < pre.len()
            &&& nr.0 < pre.len()
            &&& tree_of(pre, nl.0 as int) == template_tree(tree_of(oa, input_left.0 as int))
            &&& tree_of(pre, nr.0 as int) == template_tree(tree_of(oa, input_right.0 as int))
            &&& s2@ == schema@
            &&& l2@ == left_on@
            &&& r2@ == right_on@
            &&& p2 == options
        },
        IR::HStack { input, exprs, schema, options } => {
            &&& x matches IR::HStack { input: ni, exprs: e2, schema: s2, options: p2 }
            &&& ni.0 < pre.len()
            &&& tree_of(pre, ni.0 as int) == template_tree(tree_of(oa, input.0 as int))
            &&& e2@ == exprs@
            &&& s2@ == schema@
            &&& p2 == options
        },
        IR::Distinct { input, options } => {
            &&& x matches IR::Distinct { input: ni, options: p2 }
            &&& ni.0 < pre.len()
            &&& tree_of(pre, ni.0 as int) == template_tree(tree_of(oa, input.0 as int))
            &&& p2@ == options@
        },
        IR::MapFunction { input, function } => {
            &&& x matches IR::MapFunction { input: ni, function: f2 }
            &&& ni.0 < pre.len()
            &&& tree_of(pre, ni.0 as int) == template_tree(tree_of(oa, input.0 as int))
            &&& f2@ == function@
        },
        IR::Union { inputs, options } => {
            &&& x matches IR::Union { inputs: ni2, options: p2 }
            &&& rebuilt_children(oa, inputs@, pre, ni2@)
            &&& p2 == options
        },
        IR::HConcat { inputs, schema, options } => {
            &&& x matches IR::HConcat { inputs: ni2, schema: s2, options: p2 }
            &&& rebuilt_children(oa, inputs@, pre, ni2@)
            &&& s2@ == schema@
            &&& p2 == options
        },
        IR::ExtContext { input, contexts, schema } => {
            &&& x matches IR::ExtContext { input: ni, contexts: c2, schema: s2 }
            &&& ni.0 < pre.len()
            &&& tree_of(pre, ni.0 as int) == template_tree(tree_of(oa, input.0 as int))
            &&& rebuilt_children(oa, contexts@, pre, c2@)
            &&& s2@ == schema@
        },
        IR::Sink { input, payload } => {
            &&& x matches IR::Sink { input: ni, payload: p2 }
            &&& ni.0 < pre.len()
            &&& tree_of(pre, ni.0 as int) == template_tree(tree_of(oa, input.0 as int))
            &&& p2 == payload
        },
        IR::SinkMultiple { inputs } => {
            &&& x matches IR::SinkMultiple { inputs: ni2 }
            &&& rebuilt_children(oa, inputs@, pre, ni2@)
        },
        IR::MergeSorted { input_left, input_right, key } => {
            &&& x matches IR::MergeSorted { input_left: nl, input_right: nr, key: k2 }
            &&& nl.0 < pre.len()
            &&& nr.0 < pre.len()
            &&& tree_of(pre, nl.0 as int) == template_tree(tree_of(oa, input_left.0 as int))
            &&& tree_of(pre, nr.0 as int) == template_tree(tree_of(oa, input_right.0 as int))
            &&& k2 == key
        },
        IR::Invalid => x is Invalid,
    }
}

/// One wired-in rebuilt child keeps its denotation after the parent is
/// appended, and then denotes the template of its source subtree.
proof fn lemma_child_step(oa: Seq<IR>, child: Node, pre: Seq<IR>, ni: Node, x: IR)
    requires
        ni.0 < pre.len(),
        tree_of(pre, ni.0 as int) == template_tree(tree_of(oa, child.0 as int)),
    ensures
        child_tree(pre.push(x), ni, pre.len() as int) == template_tree(
            tree_of(oa, child.0 as int),
        ),
{
    lemma_tree_of_prefix(pre, pre.push(x), ni.0 as int);
}

/// A list of wired-in rebuilt children denotes, after the parent is
/// appended, the templates of its source subtrees.
proof fn lemma_children_step(oa: Seq<IR>, ins: Seq<Node>, bound: int, pre: Seq<IR>, outs: Seq<Node>, x: IR)
    requires
        rebuilt_children(oa, ins, pre, outs),
        forall|j: int| 0 <= j < ins.len() ==> (#[trigger] ins[j]).0 < bound,
        0 <= bound,
    ensures
        child_trees(pre.push(x), outs, pre.len() as int) == template_trees(
            child_trees(oa, ins, bound),
        ),
{
    let pd = pre.push(x);
    let p = pre.len() as int;
    lemma_child_trees_pointwise(pd, outs, p);
    lemma_child_trees_pointwise(oa, ins, bound);
    lemma_template_trees_pointwise(child_trees(oa, ins, bound));
    assert forall|j: int| 0 <= j < ins.len() implies child_trees(pd, outs, p)[j]
        == template_trees(child_trees(oa, ins, bound))[j] by {
        lemma_tree_of_prefix(pre, pd, outs[j].0 as int);
        assert(child_tree(oa, ins[j], bound) == tree_of(oa, ins[j].0 as int));
    }
    assert(child_trees(pd, outs, p) =~= template_trees(child_trees(oa, ins, bound)));
}

/// Appending a correctly rebuilt entry: the new entry denotes the
/// template of the source node, the arena stays well formed, and all
/// expression references stay valid.
proof fn lemma_template_step(oa: Seq<IR>, node: int, pre: Seq<IR>, x: IR)
    requires
        wf_arena(oa),
        0 <= node < oa.len(),
        wf_arena(pre),
        rebuilt_ok(oa, node, pre, x),
    ensures
        wf_arena(pre.push(x)),
        tree_of(pre.push(x), pre.len() as int) == template_tree(tree_of(oa, node)),
        forall|m: int|
            exprs_ok(oa, m) && exprs_ok(pre, m) ==> exprs_ok(#[trigger] pre.push(x), m),
{
    let p = pre.len() as int;
    let pd = pre.push(x);
    assert(wf_ir(oa[node], node));
    assert(pd[p] == x);
    lemma_wf_push(pre, x);
    assert forall|m: int| exprs_ok(oa, m) && exprs_ok(pre, m) implies exprs_ok(
        #[trigger] pre.push(x),
        m,
    ) by {
        assert(ir_exprs_ok(oa[node], m));
        assert(ir_exprs_ok(x, m));
        lemma_exprs_ok_push(pre, x, m);
    }
    match oa[node] {
        IR::Slice { input, .. } => {
            lemma_child_step(oa, input, pre, x->Slice_input, x);
        },
        IR::Filter { input, .. } => {
            lemma_child_step(oa, input, pre, x->Filter_input, x);
        },
        IR::Scan { .. } => {},
        IR::DataFrameScan { .. } => {},
        IR::PlaceholderScan { .. } => {},
        IR::SimpleProjection { input, .. } => {
            lemma_child_step(oa, input, pre, x->SimpleProjection_input, x);
        },
        IR::Select { input, .. } => {
            lemma_child_step(oa, input, pre, x->Select_input, x);
        },
        IR::Sort { input, .. } => {
            lemma_child_step(oa, input, pre, x->Sort_input, x);
        },
        IR::Cache { input, .. } => {
            lemma_child_step(oa, input, pre, x->Cache_input, x);
        },
        IR::GroupBy { input, .. } => {
            lemma_child_step(oa, input, pre, x->GroupBy_input, x);
        },
        IR::Join { input_left, input_right, .. } => {
            lemma_child_step(oa, input_left, pre, x->Join_input_left, x);
            lemma_child_step(oa, input_right, pre, x->Join_input_right, x);
        },
        IR::HStack { input, .. } => {
            lemma_child_step(oa, input, pre, x->HStack_input, x);
        },
        IR::Distinct { input, .. } => {
            lemma_child_step(oa, input, pre, x->Distinct_input, x);
        },
        IR::MapFunction { input, .. } => {
            lemma_child_step(oa, input, pre, x->MapFunction_input, x);
        },
        IR::Union { inputs, .. } => {
            lemma_children_step(oa, inputs@, node, pre, x->Union_inputs@, x);
        },
        IR::HConcat { inputs, .. } => {
            lemma_children_step(oa, inputs@, node, pre, x->HConcat_inputs@, x);
        },
        IR::ExtContext { input, contexts, .. } => {
            lemma_child_step(oa, input, pre, x->ExtContext_input, x);
            lemma_children_step(oa, contexts@, node, pre, x->ExtContext_contexts@, x);
        },
        IR::Sink { input, .. } => {
            lemma_child_step(oa, input, pre, x->Sink_input, x);
        },
        IR::SinkMultiple { inputs } => {
            lemma_children_step(oa, inputs@, node, pre, x->SinkMultiple_inputs@, x);
        },
        IR::MergeSorted { input_left, input_right, .. } => {
            lemma_child_step(oa, input_left, pre, x->MergeSorted_input_left, x);
            lemma_child_step(oa, input_right, pre, x->MergeSorted_input_right, x);
        },
        IR::Invalid => {},
    }
}

/// Appends the rebuilt entry `x` for source node `node` and returns its
/// handle.
fn push_rebuilt(old_arena: &Arena<IR>, Ghost(node): Ghost<int>, new_arena: &mut Arena<IR>, x: IR) -> (r: Node)
    requires
        wf_arena(old_arena@),
        0 <= node < old_arena@.len(),
        wf_arena(old(new_arena)@),
        rebuilt_ok(old_arena@, node, old(new_arena)@, x),
    ensures
        final(new_arena)@ == old(new_arena)@.push(x),
        extends(final(new_arena)@, old(new_arena)@),
        r.0 == old(new_arena)@.len(),
        wf_arena(final(new_arena)@),
        tree_of(final(new_arena)@, r.0 as int) == template_tree(tree_of(old_arena@, node)),
        forall|m: int|
            exprs_ok(old_arena@, m) && exprs_ok(old(new_arena)@, m) ==> exprs_ok(
                final(new_arena)@,
                m,
            ),
{
    proof {
        lemma_template_step(old_arena@, node, new_arena@, x);
    }
    new_arena.add(x)
}

/// Rebuilds the subtree of `node` from `old_arena` into `new_arena`,
/// replacing every concrete dataset leaf by a placeholder of the same
/// schema, and returns the handle of the rebuilt root. Children are
/// appended strictly before their parent.
#[verifier::loop_isolation(false)]
pub(crate) fn convert_to_placeholder(node: Node, old_arena: &Arena<IR>, new_arena: &mut Arena<IR>) -> (r: Node)
    requires
        wf_arena(old_arena@),
        node.0 < old_arena@.len(),
        wf_arena(old(new_arena)@),
    ensures
        extends(final(new_arena)@, old(new_arena)@),
        wf_arena(final(new_arena)@),
        r.0 < final(new_arena)@.len(),
        tree_of(final(new_arena)@, r.0 as int) == template_tree(tree_of(old_arena@, node.0 as int)),
        forall|m: int|
            exprs_ok(old_arena@, m) && exprs_ok(old(new_arena)@, m) ==> exprs_ok(
                final(new_arena)@,
                m,
            ),
    decreases node.0,
{
    proof {
        assert(wf_ir(old_arena@[node.0 as int], node.0 as int));
    }
    let ir = old_arena.get(node);
    match ir {
        IR::Slice { input, offset, len } => {
            let ni = convert_to_placeholder(*input, old_arena, new_arena);
            let x = IR::Slice { input: ni, offset: *offset, len: *len };
            push_rebuilt(old_arena, Ghost(node.0 as int), new_arena, x)
        },
        IR::Filter { input, predicate } => {
            let ni = convert_to_placeholder(*input, old_arena, new_arena);
            let x = IR::Filter { input: ni, predicate: *predicate };
            push_rebuilt(old_arena, Ghost(node.0 as int), new_arena, x)
        },
        IR::Scan { sources, file_schema, predicate, output_schema } => {
            let x = IR::Scan {
                sources: copy_strings(sources),
                file_schema: file_schema.duplicate(),
                predicate: *predicate,
                output_schema: crate::schema::duplicate_opt_schema(output_schema),
            };
            push_rebuilt(old_arena, Ghost(node.0 as int), new_arena, x)
        },
        IR::DataFrameScan { df, schema, output_schema } => {
            let x = IR::PlaceholderScan {
                schema: schema.duplicate(),
                output_schema: crate::schema::duplicate_opt_schema(output_schema),
            };
            push_rebuilt(old_arena, Ghost(node.0 as int), new_arena, x)
        },
        IR::PlaceholderScan { schema, output_schema } => {
            let x = IR::PlaceholderScan {
                schema: schema.duplicate(),
                output_schema: crate::schema::duplicate_opt_schema(output_schema),
            };
            push_rebuilt(old_arena, Ghost(node.0 as int), new_arena, x)
        },
        IR::SimpleProjection { input, columns } => {
            let ni = convert_to_placeholder(*input, old_arena, new_arena);
            let x = IR::SimpleProjection { input: ni, columns: columns.duplicate() };
            push_rebuilt(old_arena, Ghost(node.0 as int), new_arena, x)
        },
        IR::Select { input, expr, schema, options } => {
            let ni = convert_to_placeholder(*input, old_arena, new_arena);
            let x = IR::Select {
                input: ni,
                expr: copy_vec(expr),
                schema: schema.duplicate(),
                options: *options,
            };
            push_rebuilt(old_arena, Ghost(node.0 as int), new_arena, x)
        },
        IR::Sort { input, by_column, slice, sort_options } => {
            let ni = convert_to_placeholder(*input, old_arena, new_arena);
            let x = IR::Sort {
                input: ni,
                by_column: copy_vec(by_column),
                slice: *slice,
                sort_options: sort_options.duplicate(),
            };
            push_rebuilt(old_arena, Ghost(node.0 as int), new_arena, x)
        },
        IR::Cache { input, id } => {
            let ni = convert_to_placeholder(*input, old_arena, new_arena);
            let x = IR::Cache { input: ni, id: *id };
            push_rebuilt(old_arena, Ghost(node.0 as int), new_arena, x)
        },
        IR::GroupBy { input, keys, aggs, schema, maintain_order, options } => {
            let ni = convert_to_placeholder(*input, old_arena, new_arena);
            let x = IR::GroupBy {
                input: ni,
                keys: copy_vec(keys),
                aggs: copy_vec(aggs),
                schema: schema.duplicate(),
                maintain_order: *maintain_order,
                options: *options,
            };
            push_rebuilt(old_arena, Ghost(node.0 as int), new_arena, x)
        },
        IR::Join { input_left, input_right, schema, left_on, right_on, options } => {
            let nl = convert_to_placeholder(*input_left, old_arena, new_arena);
            let ghost mid = new_arena@;
            let nr = convert_to_placeholder(*input_right, old_arena, new_arena);
            proof {
                lemma_tree_of_prefix(mid, new_arena@, nl.0 as int);
            }
            let x = IR::Join {
                input_left: nl,
                input_right: nr,
                schema: schema.duplicate(),
                left_on: copy_vec(left_on),
                right_on: copy_vec(right_on),
                options: *options,
            };
            push_rebuilt(old_arena, Ghost(node.0 as int), new_arena, x)
        },
        IR::HStack { input, exprs, schema, options } => {
            let ni = convert_to_placeholder(*input, old_arena, new_arena);
            let x = IR::HStack {
                input: ni,
                exprs: copy_vec(exprs),
                schema: schema.duplicate(),
                options: *options,
            };
            push_rebuilt(old_arena, Ghost(node.0 as int), new_arena, x)
        },
        IR::Distinct { input, options } => {
            let ni = convert_to_placeholder(*input, old_arena, new_arena);
            let x = IR::Distinct { input: ni, options: options.duplicate() };
            push_rebuilt(old_arena, Ghost(node.0 as int), new_arena, x)
        },
        IR::MapFunction { input, function } => {
            let ni = convert_to_placeholder(*input, old_arena, new_arena);
            let x = IR::MapFunction { input: ni, function: function.duplicate() };
            push_rebuilt(old_arena, Ghost(node.0 as int), new_arena, x)
        },
        IR::Union { inputs, options } => {
            let new_inputs = convert_children(inputs, old_arena, new_arena, Ghost(node.0 as int));
            let x = IR::Union { inputs: new_inputs, options: *options };
            push_rebuilt(old_arena, Ghost(node.0 as int), new_arena, x)
        },
        IR::HConcat { inputs, schema, options } => {
            let new_inputs = convert_children(inputs, old_arena, new_arena, Ghost(node.0 as int));
            let x = IR::HConcat {
                inputs: new_inputs,
                schema: schema.duplicate(),
                options: *options,
            };
            push_rebuilt(old_arena, Ghost(node.0 as int), new_arena, x)
        },
        IR::ExtContext { input, contexts, schema } => {
            let ni = convert_to_placeholder(*input, old_arena, new_arena);
            let ghost mid = new_arena@;
            let new_contexts = convert_children(
                contexts,
                old_arena,
                new_arena,
                Ghost(node.0 as int),
            );
            proof {
                lemma_tree_of_prefix(mid, new_arena@, ni.0 as int);
            }
            let x = IR::ExtContext {
                input: ni,
                contexts: new_contexts,
                schema: schema.duplicate(),
            };
            push_rebuilt(old_arena, Ghost(node.0 as int), new_arena, x)
        },
        IR::Sink { input, payload } => {
            let ni = convert_to_placeholder(*input, old_arena, new_arena);
            let x = IR::Sink { input: ni, payload: payload.duplicate() };
            push_rebuilt(old_arena, Ghost(node.0 as int), new_arena, x)
        },
        IR::SinkMultiple { inputs } => {
            let new_inputs = convert_children(inputs, old_arena, new_arena, Ghost(node.0 as int));
            let x = IR::SinkMultiple { inputs: new_inputs };
            push_rebuilt(old_arena, Ghost(node.0 as int), new_arena, x)
        },
        IR::MergeSorted { input_left, input_right, key } => {
            let nl = convert_to_placeholder(*input_left, old_arena, new_arena);
            let ghost mid = new_arena@;
            let nr = convert_to_placeholder(*input_right, old_arena, new_arena);
            proof {
                lemma_tree_of_prefix(mid, new_arena@, nl.0 as int);
            }
            let x = IR::MergeSorted { input_left: nl, input_right: nr, key: key.clone() };
            push_rebuilt(old_arena, Ghost(node.0 as int), new_arena, x)
        },
        IR::Invalid => {
            push_rebuilt(old_arena, Ghost(node.0 as int), new_arena, IR::Invalid)
        },
    }
}

/// A list of freshly bound children: as many handles as the source list,
/// each valid in `pre` and denoting the successful bind of the tree its
/// source handle denotes.
pub open spec fn bound_children(
    ta: Seq<IR>,
    ins: Seq<Node>,
    d: PlanTree,
    pre: Seq<IR>,
    outs: Seq<Node>,
) -> bool {
    &&& outs.len() == ins.len()
    &&& forall|j: int|
        0 <= j < ins.len() ==> (#[trigger] outs[j]).0 < pre.len() && bind_tree(
            tree_of(ta, ins[j].0 as int),
            d,
        ) == Ok::<PlanTree, PlanError>(tree_of(pre, outs[j].0 as int))
}

/// The entry `x` is the correct bound rebuild of `ta[node]` against the
/// data tree `d` and the destination arena `pre`: a placeholder becomes
/// a copy of the dataset leaf `d` (whose column count matches), and any
/// other operator keeps its payload with every input handle replaced by
/// a fresh handle denoting the bound source input.
pub open spec fn bound_ok(ta: Seq<IR>, node: int, d: PlanTree, pre: Seq<IR>, x: IR) -> bool {
    match ta[node] {
        IR::PlaceholderScan { schema, output_schema } => {
            &&& d matches PlanTree::DataFrameScan { df: ddf, schema: ds, output_schema: dos }
            &&& schema@.len() == ds.len()
            &&& x matches IR::DataFrameScan { df: df2, schema: s2, output_schema: o2 }
            &&& df2@ == ddf
            &&& s2@ == ds
            &&& opt_schema_view(o2) == dos
        },
        IR::Slice { input, offset, len } => {
            &&& x matches IR::Slice { input: ni, offset: o2, len: l2 }
            &&& ni.0 < pre.len()
            &&& bind_tree(tree_of(ta, input.0 as int), d) == Ok::<PlanTree, PlanError>(
                tree_of(pre, ni.0 as int),
            )
            &&& o2 == offset
            &&& l2 == len
        },
        IR::Filter { input, predicate } => {
            &&& x matches IR::Filter { input: ni, predicate: p2 }
            &&& ni.0 < pre.len()
            &&& bind_tree(tree_of(ta, input.0 as int), d) == Ok::<PlanTree, PlanError>(
                tree_of(pre, ni.0 as int),
            )
            &&& p2 == predicate
        },
        IR::Scan { sources, file_schema, predicate, output_schema } => {
            &&& x matches IR::Scan {
                sources: sc2,
                file_schema: f2,
                predicate: p2,
                output_schema: o2,
            }
            &&& sc2@ == sources@
            &&& f2@ == file_schema@
            &&& p2 == predicate
            &&& opt_schema_view(o2) == opt_schema_view(output_schema)
        },
        IR::DataFrameScan { df, schema, output_schema } => {
            &&& x matches IR::DataFrameScan { df: df2, schema: s2, output_schema: o2 }
            &&& df2@ == df@
            &&& s2@ == schema@
            &&& opt_schema_view(o2) == opt_schema_view(output_schema)
        },
        IR::SimpleProjection { input, columns } => {
            &&& x matches IR::SimpleProjection { input: ni, columns: c2 }
            &&& ni.0 < pre.len()
            &&& bind_tree(tree_of(ta, input.0 as int), d) == Ok::<PlanTree, PlanError>(
                tree_of(pre, ni.0 as int),
            )
            &&& c2@ == columns@
        },
        IR::Select { input, expr, schema, options } => {
            &&& x matches IR::Select { input: ni, expr: e2, schema: s2, options: p2 }
            &&& ni.0 < pre.len()
            &&& bind_tree(tree_of(ta, input.0 as int), d) == Ok::<PlanTree, PlanError>(
                tree_of(pre, ni.0 as int),
            )
            &&& e2@ == expr@
            &&& s2@ == schema@
            &&& p2 == options
        },
        IR::Sort { input, by_column, slice, sort_options } => {
            &&& x matches IR::Sort { input: ni, by_column: b2, slice: sl2, sort_options: so2 }
            &&& ni.0 < pre.len()
            &&& bind_tree(tree_of(ta, input.0 as int), d) == Ok::<PlanTree, PlanError>(
                tree_of(pre, ni.0 as int),
            )
            &&& b2@ == by_column@
            &&& sl2 == slice
            &&& so2@ == sort_options@
        },
        IR::Cache { input, id } => {
            &&& x matches IR::Cache { input: ni, id: id2 }
            &&& ni.0 < pre.len()
            &&& bind_tree(tree_of(ta, input.0 as int), d) == Ok::<PlanTree, PlanError>(
                tree_of(pre, ni.0 as int),
            )
            &&& id2 == id
        },
        IR::GroupBy { input, keys, aggs, schema, maintain_order, options } => {
            &&& x matches IR::GroupBy {
                input: ni,
                keys: k2,
                aggs: a2,
                schema: s2,
                maintain_order: mo2,
                options: p2,
            }
            &&& ni.0 < pre.len()
            &&& bind_tree(tree_of(ta, input.0 as int), d) == Ok::<PlanTree, PlanError>(
                tree_of(pre, ni.0 as int),
            )
            &&& k2@ == keys@
            &&& a2@ == aggs@
            &&& s2@ == schema@
            &&& mo2 == maintain_order
            &&& p2 == options
        },
        IR::Join { input_left, input_right, schema, left_on, right_on, options } => {
            &&& x matches IR::Join {
                input_left: nl,
                input_right: nr,
                schema: s2,
                left_on: l2,
                right_on: r2,
                options: p2,
            }
            &&& nl.0 < pre.len()
            &&& nr.0 < pre.len()
            &&& bind_tree(tree_of(ta, input_left.0 as int), d) == Ok::<PlanTree, PlanError>(
                tree_of(pre, nl.0 as int),
            )
            &&& bind_tree(tree_of(ta, input_right.0 as int), d) == Ok::<PlanTree, PlanError>(
                tree_of(pre, nr.0 as int),
            )
            &&& s2@ == schema@
            &&& l2@ == left_on@
            &&& r2@ == right_on@
            &&& p2 == options
        },
        IR::HStack { input, exprs, schema, options } => {
            &&& x matches IR::HStack { input: ni, exprs: e2, schema: s2, options: p2 }
            &&& ni.0 < pre.len()
            &&& bind_tree(tree_of(ta, input.0 as int), d) == Ok::<PlanTree, PlanError>(
                tree_of(pre, ni.0 as int),
            )
            &&& e2@ == exprs@
            &&& s2@ == schema@
            &&& p2 == options
        },
        IR::Distinct { input, options } => {
            &&& x matches IR::Distinct { input: ni, options: p2 }
            &&& ni.0 < pre.len()
            &&& bind_tree(tree_of(ta, input.0 as int), d) == Ok::<PlanTree, PlanError>(
                tree_of(pre, ni.0 as int),
            )
            &&& p2@ == options@
        },
        IR::MapFunction { input, function } => {
            &&& x matches IR::MapFunction { input: ni, function: f2 }
            &&& ni.0 < pre.len()
            &&& bind_tree(tree_of(ta, input.0 as int), d) == Ok::<PlanTree, PlanError>(
                tree_of(pre, ni.0 as int),
            )
            &&& f2@ == function@
        },
        IR::Union { inputs, options } => {
            &&& x matches IR::Union { inputs: ni2, options: p2 }
            &&& bound_children(ta, inputs@, d, pre, ni2@)
            &&& p2 == options
        },
        IR::HConcat { inputs, schema, options } => {
            &&& x matches IR::HConcat { inputs: ni2, schema: s2, options: p2 }
            &&& bound_children(ta, inputs@, d, pre, ni2@)
            &&& s2@ == schema@
            &&& p2 == options
        },
        IR::ExtContext { input, contexts, schema } => {
            &&& x matches IR::ExtContext { input: ni, contexts: c2, schema: s2 }
            &&& ni.0 < pre.len()
            &&& bind_tree(tree_of(ta, input.0 as int), d) == Ok::<PlanTree, PlanError>(
                tree_of(pre, ni.0 as int),
            )
            &&& bound_children(ta, contexts@, d, pre, c2@)
            &&& s2@ == schema@
        },
        IR::Sink { input, payload } => {
            &&& x matches IR::Sink { input: ni, payload: p2 }
            &&& ni.0 < pre.len()
            &&& bind_tree(tree_of(ta, input.0 as int), d) == Ok::<PlanTree, PlanError>(
                tree_of(pre, ni.0 as int),
            )
            &&& p2 == payload
        },
        IR::SinkMultiple { inputs } => {
            &&& x matches IR::SinkMultiple { inputs: ni2 }
            &&& bound_children(ta, inputs@, d, pre, ni2@)
        },
        IR::MergeSorted { input_left, input_right, key } => {
            &&& x matches IR::MergeSorted { input_left: nl, input_right: nr, key: k2 }
            &&& nl.0 < pre.len()
            &&& nr.0 < pre.len()
            &&& bind_tree(tree_of(ta, input_left.0 as int), d) == Ok::<PlanTree, PlanError>(
                tree_of(pre, nl.0 as int),
            )
            &&& bind_tree(tree_of(ta, input_right.0 as int), d) == Ok::<PlanTree, PlanError>(
                tree_of(pre, nr.0 as int),
            )
            &&& k2 == key
        },
        IR::Invalid => x is Invalid,
    }
}

/// One wired-in bound child keeps its denotation after the parent is
/// appended.
proof fn lemma_bound_child_step(ta: Seq<IR>, child: Node, d: PlanTree, pre: Seq<IR>, ni: Node, x: IR)
    requires
        ni.0 < pre.len(),
        bind_tree(tree_of(ta, child.0 as int), d) == Ok::<PlanTree, PlanError>(
            tree_of(pre, ni.0 as int),
        ),
    ensures
        bind_tree(tree_of(ta, child.0 as int), d) == Ok::<PlanTree, PlanError>(
            child_tree(pre.push(x), ni, pre.len() as int),
        ),
{
    lemma_tree_of_prefix(pre, pre.push(x), ni.0 as int);
}

/// A list of wired-in bound children denotes, after the parent is
/// appended, exactly the successful bind of its source subtrees.
proof fn lemma_bound_children_step(
    ta: Seq<IR>,
    ins: Seq<Node>,
    bound: int,
    d: PlanTree,
    pre: Seq<IR>,
    outs: Seq<Node>,
    x: IR,
)
    requires
        bound_children(ta, ins, d, pre, outs),
        forall|j: int| 0 <= j < ins.len() ==> (#[trigger] ins[j]).0 < bound,
        0 <= bound,
    ensures
        bind_trees(child_trees(ta, ins, bound), d) == Ok::<Seq<PlanTree>, PlanError>(
            child_trees(pre.push(x), outs, pre.len() as int),
        ),
{
    let pd = pre.push(x);
    let p = pre.len() as int;
    let cts = child_trees(ta, ins, bound);
    lemma_child_trees_pointwise(ta, ins, bound);
    lemma_child_trees_pointwise(pd, outs, p);
    assert forall|j: int| 0 <= j < cts.len() implies #[trigger] bind_tree(cts[j], d) is Ok by {
        assert(cts[j] == tree_of(ta, ins[j].0 as int));
        assert(bind_tree(tree_of(ta, ins[j].0 as int), d) == Ok::<PlanTree, PlanError>(
            tree_of(pre, outs[j].0 as int),
        ));
    }
    lemma_bind_trees_pointwise(cts, d);
    let us = bind_trees(cts, d)->Ok_0;
    assert forall|j: int| 0 <= j < ins.len() implies us[j] == #[trigger] child_trees(
        pd,
        outs,
        p,
    )[j] by {
        assert(bind_tree(cts[j], d) == Ok::<PlanTree, PlanError>(us[j]));
        assert(cts[j] == tree_of(ta, ins[j].0 as int));
        lemma_tree_of_prefix(pre, pd, outs[j].0 as int);
    }
    assert(us =~= child_trees(pd, outs, p));
}

/// Appending a correctly bound entry: the new entry denotes the
/// successful bind of the source node, the arena stays well formed, and
/// all expression references stay valid.
proof fn lemma_bind_step(ta: Seq<IR>, node: int, d: PlanTree, pre: Seq<IR>, x: IR)
    requires
        wf_arena(ta),
        0 <= node < ta.len(),
        wf_arena(pre),
        bound_ok(ta, node, d, pre, x),
    ensures
        wf_arena(pre.push(x)),
        bind_tree(tree_of(ta, node), d) == Ok::<PlanTree, PlanError>(
            tree_of(pre.push(x), pre.len() as int),
        ),
        forall|m: int|
            exprs_ok(ta, m) && exprs_ok(pre, m) ==> exprs_ok(#[trigger] pre.push(x), m),
{
    let p = pre.len() as int;
    let pd = pre.push(x);
    assert(wf_ir(ta[node], node));
    assert(pd[p] == x);
    assert forall|m: int| exprs_ok(ta, m) && exprs_ok(pre, m) implies exprs_ok(
        #[trigger] pre.push(x),
        m,
    ) by {
        assert(ir_exprs_ok(ta[node], m));
        assert(ir_exprs_ok(x, m));
        lemma_exprs_ok_push(pre, x, m);
    }
    match ta[node] {
        IR::PlaceholderScan { .. } => {
            assert(wf_ir(x, p));
            lemma_wf_push(pre, x);
        },
        IR::Slice { input, .. } => {
            lemma_wf_push(pre, x);
            lemma_bound_child_step(ta, input, d, pre, x->Slice_input, x);
        },
        IR::Filter { input, .. } => {
            lemma_wf_push(pre, x);
            lemma_bound_child_step(ta, input, d, pre, x->Filter_input, x);
        },
        IR::Scan { .. } => {
            lemma_wf_push(pre, x);
        },
        IR::DataFrameScan { .. } => {
            lemma_wf_push(pre, x);
        },
        IR::SimpleProjection { input, .. } => {
            lemma_wf_push(pre, x);
            lemma_bound_child_step(ta, input, d, pre, x->SimpleProjection_input, x);
        },
        IR::Select { input, .. } => {
            lemma_wf_push(pre, x);
            lemma_bound_child_step(ta, input, d, pre, x->Select_input, x);
        },
        IR::Sort { input, .. } => {
            lemma_wf_push(pre, x);
            lemma_bound_child_step(ta, input, d, pre, x->Sort_input, x);
        },
        IR::Cache { input, .. } => {
            lemma_wf_push(pre, x);
            lemma_bound_child_step(ta, input, d, pre, x->Cache_input, x);
        },
        IR::GroupBy { input, .. } => {
            lemma_wf_push(pre, x);
            lemma_bound_child_step(ta, input, d, pre, x->GroupBy_input, x);
        },
        IR::Join { input_left, input_right, .. } => {
            lemma_wf_push(pre, x);
            lemma_bound_child_step(ta, input_left, d, pre, x->Join_input_left, x);
            lemma_bound_child_step(ta, input_right, d, pre, x->Join_input_right, x);
        },
        IR::HStack { input, .. } => {
            lemma_wf_push(pre, x);
            lemma_bound_child_step(ta, input, d, pre, x->HStack_input, x);
        },
        IR::Distinct { input, .. } => {
            lemma_wf_push(pre, x);
            lemma_bound_child_step(ta, input, d, pre, x->Distinct_input, x);
        },
        IR::MapFunction { input, .. } => {
            lemma_wf_push(pre, x);
            lemma_bound_child_step(ta, input, d, pre, x->MapFunction_input, x);
        },
        IR::Union { inputs, .. } => {
            lemma_wf_push(pre, x);
            lemma_bound_children_step(ta, inputs@, node, d, pre, x->Union_inputs@, x);
        },
        IR::HConcat { inputs, .. } => {
            lemma_wf_push(pre, x);
            lemma_bound_children_step(ta, inputs@, node, d, pre, x->HConcat_inputs@, x);
        },
        IR::ExtContext { input, contexts, .. } => {
            lemma_wf_push(pre, x);
            lemma_bound_child_step(ta, input, d, pre, x->ExtContext_input, x);
            lemma_bound_children_step(ta, contexts@, node, d, pre, x->ExtContext_contexts@, x);
        },
        IR::Sink { input, .. } => {
            lemma_wf_push(pre, x);
            lemma_bound_child_step(ta, input, d, pre, x->Sink_input, x);
        },
        IR::SinkMultiple { inputs } => {
            lemma_wf_push(pre, x);
            lemma_bound_children_step(ta, inputs@, node, d, pre, x->SinkMultiple_inputs@, x);
        },
        IR::MergeSorted { input_left, input_right, .. } => {
            lemma_wf_push(pre, x);
            lemma_bound_child_step(ta, input_left, d, pre, x->MergeSorted_input_left, x);
            lemma_bound_child_step(ta, input_right, d, pre, x->MergeSorted_input_right, x);
        },
        IR::Invalid => {
            lemma_wf_push(pre, x);
        },
    }
}

/// Appends the bound entry `x` for source node `node` and returns its
/// handle.
fn push_bound(
    template_arena: &Arena<IR>,
    Ghost(node): Ghost<int>,
    Ghost(d): Ghost<PlanTree>,
    new_arena: &mut Arena<IR>,
    x: IR,
) -> (r: Node)
    requires
        wf_arena(template_arena@),
        0 <= node < template_arena@.len(),
        wf_arena(old(new_arena)@),
        bound_ok(template_arena@, node, d, old(new_arena)@, x),
    ensures
        final(new_arena)@ == old(new_arena)@.push(x),
        extends(final(new_arena)@, old(new_arena)@),
        r.0 == old(new_arena)@.len(),
        wf_arena(final(new_arena)@),
        bind_tree(tree_of(template_arena@, node), d) == Ok::<PlanTree, PlanError>(
            tree_of(final(new_arena)@, r.0 as int),
        ),
        forall|m: int|
            exprs_ok(template_arena@, m) && exprs_ok(old(new_arena)@, m) ==> exprs_ok(
                final(new_arena)@,
                m,
            ),
{
    proof {
        lemma_bind_step(template_arena@, node, d, new_arena@, x);
    }
    new_arena.add(x)
}

/// Rebuilds each child of a multi-input node, left to right, stopping at
/// the first child whose bind fails.
#[verifier::loop_isolation(false)]
fn bind_children(
    inputs: &Vec<Node>,
    data_node: Node,
    data_arena: &Arena<IR>,
    template_arena: &Arena<IR>,
    new_arena: &mut Arena<IR>,
    Ghost(bound): Ghost<int>,
) -> (res: Result<Vec<Node>, PlanError>)
    requires
        wf_arena(template_arena@),
        forall|j: int| 0 <= j < inputs@.len() ==> (#[trigger] inputs@[j]).0 < bound,
        bound <= template_arena@.len(),
        data_node.0 < data_arena@.len(),
        wf_arena(old(new_arena)@),
    ensures
        extends(final(new_arena)@, old(new_arena)@),
        wf_arena(final(new_arena)@),
        match res {
            Ok(outs) => bound_children(
                template_arena@,
                inputs@,
                tree_of(data_arena@, data_node.0 as int),
                final(new_arena)@,
                outs@,
            ),
            Err(e) => bind_trees(
                child_trees(template_arena@, inputs@, bound),
                tree_of(data_arena@, data_node.0 as int),
            ) == Err::<Seq<PlanTree>, PlanError>(e),
        },
        forall|m: int|
            exprs_ok(template_arena@, m) && exprs_ok(old(new_arena)@, m) ==> exprs_ok(
                final(new_arena)@,
                m,
            ),
    decreases bound, inputs@.len(),
{
    let ghost d = tree_of(data_arena@, data_node.0 as int);
    let ghost cts = child_trees(template_arena@, inputs@, bound);
    proof {
        lemma_child_trees_pointwise(template_arena@, inputs@, bound);
    }
    let mut out: Vec<Node> = Vec::new();
    let mut k: usize = 0;
    while k < inputs.len()
        invariant
            k <= inputs.len(),
            out@.len() == k,
            extends(new_arena@, old(new_arena)@),
            wf_arena(new_arena@),
            forall|j: int|
                0 <= j < k ==> (#[trigger] out@[j]).0 < new_arena@.len() && bind_tree(
                    tree_of(template_arena@, inputs@[j].0 as int),
                    d,
                ) == Ok::<PlanTree, PlanError>(tree_of(new_arena@, out@[j].0 as int)),
            forall|m: int|
                exprs_ok(template_arena@, m) && exprs_ok(old(new_arena)@, m) ==> exprs_ok(
                    new_arena@,
                    m,
                ),
        decreases inputs.len() - k,
    {
        let ghost prev = new_arena@;
        assert(inputs@[k as int].0 < bound);
        match replace_placeholder(inputs[k], data_node, data_arena, template_arena, new_arena) {
            Ok(c) => {
                proof {
                    assert forall|j: int| 0 <= j < k implies (#[trigger] out@[j]).0
                        < new_arena@.len() && bind_tree(
                        tree_of(template_arena@, inputs@[j].0 as int),
                        d,
                    ) == Ok::<PlanTree, PlanError>(
                        tree_of(new_arena@, out@[j].0 as int),
                    ) by {
                        lemma_tree_of_prefix(prev, new_arena@, out@[j].0 as int);
                    }
                }
                out.push(c);
            },
            Err(e) => {
                proof {
                    let sub = cts.subrange(0, k as int);
                    assert forall|j: int| 0 <= j < sub.len() implies #[trigger] bind_tree(
                        sub[j],
                        d,
                    ) is Ok by {
                        assert(sub[j] == cts[j]);
                        assert(cts[j] == tree_of(template_arena@, inputs@[j].0 as int));
                        assert(bind_tree(tree_of(template_arena@, inputs@[j].0 as int), d)
                            == Ok::<PlanTree, PlanError>(tree_of(prev, out@[j].0 as int)));
                    }
                    lemma_bind_trees_pointwise(sub, d);
                    assert(bind_tree(cts[k as int], d) == Err::<PlanTree, PlanError>(e));
                    lemma_bind_trees_push(sub, cts[k as int], d);
                    assert(sub.push(cts[k as int]) =~= cts.subrange(0, k as int + 1));
                    lemma_bind_trees_prefix_err(cts, d, k as int + 1, e);
                }
                return Err(e);
            },
        }
        k = k + 1;
    }
    Ok(out)
}

/// Rebuilds the subtree of `node` from `template_arena` into
/// `new_arena`, replacing every placeholder by a copy of the dataset
/// node `data_node` of `data_arena`, after validating at each
/// substitution that the data is a concrete dataset leaf whose column
/// count equals the placeholder's. Fails atomically on the first
/// violation.
#[verifier::loop_isolation(false)]
pub(crate) fn replace_placeholder(
    node: Node,
    data_node: Node,
    data_arena: &Arena<IR>,
    template_arena: &Arena<IR>,
    new_arena: &mut Arena<IR>,
) -> (res: Result<Node, PlanError>)
    requires
        wf_arena(template_arena@),
        node.0 < template_arena@.len(),
        data_node.0 < data_arena@.len(),
        wf_arena(old(new_arena)@),
    ensures
        extends(final(new_arena)@, old(new_arena)@),
        wf_arena(final(new_arena)@),
        match res {
            Ok(r) => r.0 < final(new_arena)@.len() && bind_tree(
                tree_of(template_arena@, node.0 as int),
                tree_of(data_arena@, data_node.0 as int),
            ) == Ok::<PlanTree, PlanError>(tree_of(final(new_arena)@, r.0 as int)),
            Err(e) => bind_tree(
                tree_of(template_arena@, node.0 as int),
                tree_of(data_arena@, data_node.0 as int),
            ) == Err::<PlanTree, PlanError>(e),
        },
        forall|m: int|
            exprs_ok(template_arena@, m) && exprs_ok(old(new_arena)@, m) ==> exprs_ok(
                final(new_arena)@,
                m,
            ),
    decreases node.0,
{
    proof {
        assert(wf_ir(template_arena@[node.0 as int], node.0 as int));
    }
    let ghost d = tree_of(data_arena@, data_node.0 as int);
    let ir = template_arena.get(node);
    match ir {
        IR::PlaceholderScan { schema, output_schema } => {
            let data_ir = data_arena.get(data_node);
            match data_ir {
                IR::DataFrameScan { df, schema: data_schema, output_schema: data_output } => {
                    if schema.len() != data_schema.len() {
                        return Err(
                            PlanError::SchemaMismatch {
                                expected: schema.len(),
                                got: data_schema.len(),
                            },
                        );
                    }
                    let x = IR::DataFrameScan {
                        df: df.duplicate(),
                        schema: data_schema.duplicate(),
                        output_schema: crate::schema::duplicate_opt_schema(data_output),
                    };
                    Ok(push_bound(template_arena, Ghost(node.0 as int), Ghost(d), new_arena, x))
                },
                _ => Err(PlanError::InvalidBindTarget),
            }
        },
        IR::Slice { input, offset, len } => {
            let ni = match replace_placeholder(
                *input,
                data_node,
                data_arena,
                template_arena,
                new_arena,
            ) {
                Ok(n) => n,
                Err(e) => {
                    return Err(e);
                },
            };
            let x = IR::Slice { input: ni, offset: *offset, len: *len };
            Ok(push_bound(template_arena, Ghost(node.0 as int), Ghost(d), new_arena, x))
        },
        IR::Filter { input, predicate } => {
            let ni = match replace_placeholder(
                *input,
                data_node,
                data_arena,
                template_arena,
                new_arena,
            ) {
                Ok(n) => n,
                Err(e) => {
                    return Err(e);
                },
            };
            let x = IR::Filter { input: ni, predicate: *predicate };
            Ok(push_bound(template_arena, Ghost(node.0 as int), Ghost(d), new_arena, x))
        },
        IR::Scan { sources, file_schema, predicate, output_schema } => {
            let x = IR::Scan {
                sources: copy_strings(sources),
                file_schema: file_schema.duplicate(),
                predicate: *predicate,
                output_schema: crate::schema::duplicate_opt_schema(output_schema),
            };
            Ok(push_bound(template_arena, Ghost(node.0 as int), Ghost(d), new_arena, x))
        },
        IR::DataFrameScan { df, schema, output_schema } => {
            let x = IR::DataFrameScan {
                df: df.duplicate(),
                schema: schema.duplicate(),
                output_schema: crate::schema::duplicate_opt_schema(output_schema),
            };
            Ok(push_bound(template_arena, Ghost(node.0 as int), Ghost(d), new_arena, x))
        },
        IR::SimpleProjection { input, columns } => {
            let ni = match replace_placeholder(
                *input,
                data_node,
                data_arena,
                template_arena,
                new_arena,
            ) {
                Ok(n) => n,
                Err(e) => {
                    return Err(e);
                },
            };
            let x = IR::SimpleProjection { input: ni, columns: columns.duplicate() };
            Ok(push_bound(template_arena, Ghost(node.0 as int), Ghost(d), new_arena, x))
        },
        IR::Select { input, expr, schema, options } => {
            let ni = match replace_placeholder(
                *input,
                data_node,
                data_arena,
                template_arena,
                new_arena,
            ) {
                Ok(n) => n,
                Err(e) => {
                    return Err(e);
                },
            };
            let x = IR::Select {
                input: ni,
                expr: copy_vec(expr),
                schema: schema.duplicate(),
                options: *options,
            };
            Ok(push_bound(template_arena, Ghost(node.0 as int), Ghost(d), new_arena, x))
        },
        IR::Sort { input, by_column, slice, sort_options } => {
            let ni = match replace_placeholder(
                *input,
                data_node,
                data_arena,
                template_arena,
                new_arena,
            ) {
                Ok(n) => n,
                Err(e) => {
                    return Err(e);
                },
            };
            let x = IR::Sort {
                input: ni,
                by_column: copy_vec(by_column),
                slice: *slice,
                sort_options: sort_options.duplicate(),
            };
            Ok(push_bound(template_arena, Ghost(node.0 as int), Ghost(d), new_arena, x))
        },
        IR::Cache { input, id } => {
            let ni = match replace_placeholder(
                *input,
                data_node,
                data_arena,
                template_arena,
                new_arena,
            ) {
                Ok(n) => n,
                Err(e) => {
                    return Err(e);
                },
            };
            let x = IR::Cache { input: ni, id: *id };
            Ok(push_bound(template_arena, Ghost(node.0 as int), Ghost(d), new_arena, x))
        },
        IR::GroupBy { input, keys, aggs, schema, maintain_order, options } => {
            let ni = match replace_placeholder(
                *input,
                data_node,
                data_arena,
                template_arena,
                new_arena,
            ) {
                Ok(n) => n,
                Err(e) => {
                    return Err(e);
                },
            };
            let x = IR::GroupBy {
                input: ni,
                keys: copy_vec(keys),
                aggs: copy_vec(aggs),
                schema: schema.duplicate(),
                maintain_order: *maintain_order,
                options: *options,
            };
            Ok(push_bound(template_arena, Ghost(node.0 as int), Ghost(d), new_arena, x))
        },
        IR::Join { input_left, input_right, schema, left_on, right_on, options } => {
            let nl = match replace_placeholder(
                *input_left,
                data_node,
                data_arena,
                template_arena,
                new_arena,
            ) {
                Ok(n) => n,
                Err(e) => {
                    return Err(e);
                },
            };
            let ghost mid = new_arena@;
            let nr = match replace_placeholder(
                *input_right,
                data_node,
                data_arena,
                template_arena,
                new_arena,
            ) {
                Ok(n) => n,
                Err(e) => {
                    return Err(e);
                },
            };
            proof {
                lemma_tree_of_prefix(mid, new_arena@, nl.0 as int);
            }
            let x = IR::Join {
                input_left: nl,
                input_right: nr,
                schema: schema.duplicate(),
                left_on: copy_vec(left_on),
                right_on: copy_vec(right_on),
                options: *options,
            };
            Ok(push_bound(template_arena, Ghost(node.0 as int), Ghost(d), new_arena, x))
        },
        IR::HStack { input, exprs, schema, options } => {
            let ni = match replace_placeholder(
                *input,
                data_node,
                data_arena,
                template_arena,
                new_arena,
            ) {
                Ok(n) => n,
                Err(e) => {
                    return Err(e);
                },
            };
            let x = IR::HStack {
                input: ni,
                exprs: copy_vec(exprs),
                schema: schema.duplicate(),
                options: *options,
            };
            Ok(push_bound(template_arena, Ghost(node.0 as int), Ghost(d), new_arena, x))
        },
        IR::Distinct { input, options } => {
            let ni = match replace_placeholder(
                *input,
                data_node,
                data_arena,
                template_arena,
                new_arena,
            ) {
                Ok(n) => n,
                Err(e) => {
                    return Err(e);
                },
            };
            let x = IR::Distinct { input: ni, options: options.duplicate() };
            Ok(push_bound(template_arena, Ghost(node.0 as int), Ghost(d), new_arena, x))
        },
        IR::MapFunction { input, function } => {
            let ni = match replace_placeholder(
                *input,
                data_node,
                data_arena,
                template_arena,
                new_arena,
            ) {
                Ok(n) => n,
                Err(e) => {
                    return Err(e);
                },
            };
            let x = IR::MapFunction { input: ni, function: function.duplicate() };
            Ok(push_bound(template_arena, Ghost(node.0 as int), Ghost(d), new_arena, x))
        },
        IR::Union { inputs, options } => {
            let new_inputs = match bind_children(
                inputs,
                data_node,
                data_arena,
                template_arena,
                new_arena,
                Ghost(node.0 as int),
            ) {
                Ok(v) => v,
                Err(e) => {
                    return Err(e);
                },
            };
            let x = IR::Union { inputs: new_inputs, options: *options };
            Ok(push_bound(template_arena, Ghost(node.0 as int), Ghost(d), new_arena, x))
        },
        IR::HConcat { inputs, schema, options } => {
            let new_inputs = match bind_children(
                inputs,
                data_node,
                data_arena,
                template_arena,
                new_arena,
                Ghost(node.0 as int),
            ) {
                Ok(v) => v,
                Err(e) => {
                    return Err(e);
                },
            };
            let x = IR::HConcat {
                inputs: new_inputs,
                schema: schema.duplicate(),
                options: *options,
            };
            Ok(push_bound(template_arena, Ghost(node.0 as int), Ghost(d), new_arena, x))
        },
        IR::ExtContext { input, contexts, schema } => {
            let ni = match replace_placeholder(
                *input,
                data_node,
                data_arena,
                template_arena,
                new_arena,
            ) {
                Ok(n) => n,
                Err(e) => {
                    return Err(e);
                },
            };
            let ghost mid = new_arena@;
            let new_contexts = match bind_children(
                contexts,
                data_node,
                data_arena,
                template_arena,
                new_arena,
                Ghost(node.0 as int),
            ) {
                Ok(v) => v,
                Err(e) => {
                    return Err(e);
                },
            };
            proof {
                lemma_tree_of_prefix(mid, new_arena@, ni.0 as int);
            }
            let x = IR::ExtContext {
                input: ni,
                contexts: new_contexts,
                schema: schema.duplicate(),
            };
            Ok(push_bound(template_arena, Ghost(node.0 as int), Ghost(d), new_arena, x))
        },
        IR::Sink { input, payload } => {
            let ni = match replace_placeholder(
                *input,
                data_node,
                data_arena,
                template_arena,
                new_arena,
            ) {
                Ok(n) => n,
                Err(e) => {
                    return Err(e);
                },
            };
            let x = IR::Sink { input: ni, payload: payload.duplicate() };
            Ok(push_bound(template_arena, Ghost(node.0 as int), Ghost(d), new_arena, x))
        },
        IR::SinkMultiple { inputs } => {
            let new_inputs = match bind_children(
                inputs,
                data_node,
                data_arena,
                template_arena,
                new_arena,
                Ghost(node.0 as int),
            ) {
                Ok(v) => v,
                Err(e) => {
                    return Err(e);
                },
            };
            let x = IR::SinkMultiple { inputs: new_inputs };
            Ok(push_bound(template_arena, Ghost(node.0 as int), Ghost(d), new_arena, x))
        },
        IR::MergeSorted { input_left, input_right, key } => {
            let nl = match replace_placeholder(
                *input_left,
                data_node,
                data_arena,
                template_arena,
                new_arena,
            ) {
                Ok(n) => n,
                Err(e) => {
                    return Err(e);
                },
            };
            let ghost mid = new_arena@;
            let nr = match replace_placeholder(
                *input_right,
                data_node,
                data_arena,
                template_arena,
                new_arena,
            ) {
                Ok(n) => n,
                Err(e) => {
                    return Err(e);
                },
            };
            proof {
                lemma_tree_of_prefix(mid, new_arena@, nl.0 as int);
            }
            let x = IR::MergeSorted { input_left: nl, input_right: nr, key: key.clone() };
            Ok(push_bound(template_arena, Ghost(node.0 as int), Ghost(d), new_arena, x))
        },
        IR::Invalid => {
            Ok(push_bound(template_arena, Ghost(node.0 as int), Ghost(d), new_arena, IR::Invalid))
        },
    }
}

/// Rebuilds each child of a multi-input node, left to right.
#[verifier::loop_isolation(false)]
fn convert_children(inputs: &Vec<Node>, old_arena: &Arena<IR>, new_arena: &mut Arena<IR>, Ghost(bound): Ghost<int>) -> (r: Vec<Node>)
    requires
        wf_arena(old_arena@),
        forall|j: int| 0 <= j < inputs@.len() ==> (#[trigger] inputs@[j]).0 < bound,
        bound <= old_arena@.len(),
        wf_arena(old(new_arena)@),
    ensures
        extends(final(new_arena)@, old(new_arena)@),
        wf_arena(final(new_arena)@),
        rebuilt_children(old_arena@, inputs@, final(new_arena)@, r@),
        forall|m: int|
            exprs_ok(old_arena@, m) && exprs_ok(old(new_arena)@, m) ==> exprs_ok(
                final(new_arena)@,
                m,
            ),
    decreases bound, inputs@.len(),
{
    let mut out: Vec<Node> = Vec::new();
    let mut k: usize = 0;
    while k < inputs.len()
        invariant
            k <= inputs.len(),
            out@.len() == k,
            extends(new_arena@, old(new_arena)@),
            wf_arena(new_arena@),
            forall|j: int|
                0 <= j < k ==> (#[trigger] out@[j]).0 < new_arena@.len() && tree_of(
                    new_arena@,
                    out@[j].0 as int,
                ) == template_tree(tree_of(old_arena@, inputs@[j].0 as int)),
            forall|m: int|
                exprs_ok(old_arena@, m) && exprs_ok(old(new_arena)@, m) ==> exprs_ok(
                    new_arena@,
                    m,
                ),
        decreases inputs.len() - k,
    {
        let ghost prev = new_arena@;
        assert(inputs@[k as int].0 < bound);
        let c = convert_to_placeholder(inputs[k], old_arena, new_arena);
        proof {
            assert forall|j: int| 0 <= j < k implies (#[trigger] out@[j]).0 < new_arena@.len()
                && tree_of(new_arena@, out@[j].0 as int) == template_tree(
                tree_of(old_arena@, inputs@[j].0 as int),
            ) by {
                lemma_tree_of_prefix(prev, new_arena@, out@[j].0 as int);
            }
        }
        out.push(c);
        k = k + 1;
    }
    out
}

} // verus!
