//! What holds of the two transforms beyond their own contracts: shape
//! preservation, passthrough of childless operators, exact success and
//! failure conditions of a bind, and the round trip from a materialized
//! plan through its template and back.

use vstd::prelude::*;
use crate::error::PlanError;
use crate::tree::PlanTree;
use crate::tree::bind_tree;
use crate::tree::bind_trees;
use crate::tree::lemma_bind_trees_pointwise;
use crate::tree::lemma_template_trees_pointwise;
use crate::tree::template_tree;
use crate::tree::template_trees;

verus! {

/// The direct subtrees of a tree's root, in input order.
pub open spec fn children_of(t: PlanTree) -> Seq<PlanTree> {
    match t {
        PlanTree::Slice { input, .. } => seq![*input],
        PlanTree::Filter { input, .. } => seq![*input],
        PlanTree::Scan { .. } => Seq::empty(),
        PlanTree::DataFrameScan { .. } => Seq::empty(),
        PlanTree::PlaceholderScan { .. } => Seq::empty(),
        PlanTree::SimpleProjection { input, .. } => seq![*input],
        PlanTree::Select { input, .. } => seq![*input],
        PlanTree::Sort { input, .. } => seq![*input],
        PlanTree::Cache { input, .. } => seq![*input],
        PlanTree::GroupBy { input, .. } => seq![*input],
        PlanTree::Join { input_left, input_right, .. } => seq![*input_left, *input_right],
        PlanTree::HStack { input, .. } => seq![*input],
        PlanTree::Distinct { input, .. } => seq![*input],
        PlanTree::MapFunction { input, .. } => seq![*input],
        PlanTree::Union { inputs, .. } => inputs,
        PlanTree::HConcat { inputs, .. } => inputs,
        PlanTree::ExtContext { input, contexts, .. } => seq![*input] + contexts,
        PlanTree::Sink { input, .. } => seq![*input],
        PlanTree::SinkMultiple { inputs } => inputs,
        PlanTree::MergeSorted { input_left, input_right, .. } => seq![*input_left, *input_right],
        PlanTree::Invalid => Seq::empty(),
    }
}

/// The stable textual tag of a tree's root operator; the same tags as on
/// arena entries.
pub open spec fn tree_tag(t: PlanTree) -> Seq<char> {
    match t {
        PlanTree::Slice { .. } => "SLICE"@,
        PlanTree::Filter { .. } => "FILTER"@,
        PlanTree::Scan { .. } => "SCAN"@,
        PlanTree::DataFrameScan { .. } => "DF"@,
        PlanTree::PlaceholderScan { .. } => "PLACEHOLDER"@,
        PlanTree::SimpleProjection { .. } => "SIMPLE_PROJECTION"@,
        PlanTree::Select { .. } => "SELECT"@,
        PlanTree::Sort { .. } => "SORT"@,
        PlanTree::Cache { .. } => "CACHE"@,
        PlanTree::GroupBy { .. } => "GROUP_BY"@,
        PlanTree::Join { .. } => "JOIN"@,
        PlanTree::HStack { .. } => "H_STACK"@,
        PlanTree::Distinct { .. } => "DISTINCT"@,
        PlanTree::MapFunction { .. } => "MAP_FUNCTION"@,
        PlanTree::Union { .. } => "UNION"@,
        PlanTree::HConcat { .. } => "H_CONCAT"@,
        PlanTree::ExtContext { .. } => "EXT_CONTEXT"@,
        PlanTree::Sink { .. } => "SINK"@,
        PlanTree::SinkMultiple { .. } => "SINK_MULTIPLE"@,
        PlanTree::MergeSorted { .. } => "MERGE_SORTED"@,
        PlanTree::Invalid => "INVALID"@,
    }
}

/// No placeholder leaf occurs anywhere in the tree.
pub open spec fn no_placeholder(t: PlanTree) -> bool
    decreases t,
{
    match t {
        PlanTree::PlaceholderScan { .. } => false,
        PlanTree::Slice { input, .. } => no_placeholder(*input),
        PlanTree::Filter { input, .. } => no_placeholder(*input),
        PlanTree::Scan { .. } => true,
        PlanTree::DataFrameScan { .. } => true,
        PlanTree::SimpleProjection { input, .. } => no_placeholder(*input),
        PlanTree::Select { input, .. } => no_placeholder(*input),
        PlanTree::Sort { input, .. } => no_placeholder(*input),
        PlanTree::Cache { input, .. } => no_placeholder(*input),
        PlanTree::GroupBy { input, .. } => no_placeholder(*input),
        PlanTree::Join { input_left, input_right, .. } => no_placeholder(*input_left)
            && no_placeholder(*input_right),
        PlanTree::HStack { input, .. } => no_placeholder(*input),
        PlanTree::Distinct { input, .. } => no_placeholder(*input),
        PlanTree::MapFunction { input, .. } => no_placeholder(*input),
        PlanTree::Union { inputs, .. } => no_placeholder_all(inputs),
        PlanTree::HConcat { inputs, .. } => no_placeholder_all(inputs),
        PlanTree::ExtContext { input, contexts, .. } => no_placeholder(*input)
            && no_placeholder_all(contexts),
        PlanTree::Sink { input, .. } => no_placeholder(*input),
        PlanTree::SinkMultiple { inputs } => no_placeholder_all(inputs),
        PlanTree::MergeSorted { input_left, input_right, .. } => no_placeholder(*input_left)
            && no_placeholder(*input_right),
        PlanTree::Invalid => true,
    }
}

/// No placeholder leaf occurs in any tree of the list.
pub open spec fn no_placeholder_all(ts: Seq<PlanTree>) -> bool
    decreases ts,
{
    ts.len() == 0 || (no_placeholder(ts[0]) && no_placeholder_all(ts.drop_first()))
}

/// Every placeholder leaf in the tree has exactly `n` columns.
pub open spec fn all_placeholder_cols(t: PlanTree, n: nat) -> bool
    decreases t,
{
    match t {
        PlanTree::PlaceholderScan { schema, .. } => schema.len() == n,
        PlanTree::Slice { input, .. } => all_placeholder_cols(*input, n),
        PlanTree::Filter { input, .. } => all_placeholder_cols(*input, n),
        PlanTree::Scan { .. } => true,
        PlanTree::DataFrameScan { .. } => true,
        PlanTree::SimpleProjection { input, .. } => all_placeholder_cols(*input, n),
        PlanTree::Select { input, .. } => all_placeholder_cols(*input, n),
        PlanTree::Sort { input, .. } => all_placeholder_cols(*input, n),
        PlanTree::Cache { input, .. } => all_placeholder_cols(*input, n),
        PlanTree::GroupBy { input, .. } => all_placeholder_cols(*input, n),
        PlanTree::Join { input_left, input_right, .. } => all_placeholder_cols(*input_left, n)
            && all_placeholder_cols(*input_right, n),
        PlanTree::HStack { input, .. } => all_placeholder_cols(*input, n),
        PlanTree::Distinct { input, .. } => all_placeholder_cols(*input, n),
        PlanTree::MapFunction { input, .. } => all_placeholder_cols(*input, n),
        PlanTree::Union { inputs, .. } => all_placeholder_cols_all(inputs, n),
        PlanTree::HConcat { inputs, .. } => all_placeholder_cols_all(inputs, n),
        PlanTree::ExtContext { input, contexts, .. } => all_placeholder_cols(*input, n)
            && all_placeholder_cols_all(contexts, n),
        PlanTree::Sink { input, .. } => all_placeholder_cols(*input, n),
        PlanTree::SinkMultiple { inputs } => all_placeholder_cols_all(inputs, n),
        PlanTree::MergeSorted { input_left, input_right, .. } => all_placeholder_cols(
            *input_left,
            n,
        ) && all_placeholder_cols(*input_right, n),
        PlanTree::Invalid => true,
    }
}

/// Every placeholder leaf in any tree of the list has exactly `n`
/// columns.
pub open spec fn all_placeholder_cols_all(ts: Seq<PlanTree>, n: nat) -> bool
    decreases ts,
{
    ts.len() == 0 || (all_placeholder_cols(ts[0], n) && all_placeholder_cols_all(
        ts.drop_first(),
        n,
    ))
}

/// Every concrete dataset leaf in the tree has exactly `n` columns.
pub open spec fn all_scan_cols(t: PlanTree, n: nat) -> bool
    decreases t,
{
    match t {
        PlanTree::DataFrameScan { schema, .. } => schema.len() == n,
        PlanTree::PlaceholderScan { .. } => true,
        PlanTree::Slice { input, .. } => all_scan_cols(*input, n),
        PlanTree::Filter { input, .. } => all_scan_cols(*input, n),
        PlanTree::Scan { .. } => true,
        PlanTree::SimpleProjection { input, .. } => all_scan_cols(*input, n),
        PlanTree::Select { input, .. } => all_scan_cols(*input, n),
        PlanTree::Sort { input, .. } => all_scan_cols(*input, n),
        PlanTree::Cache { input, .. } => all_scan_cols(*input, n),
        PlanTree::GroupBy { input, .. } => all_scan_cols(*input, n),
        PlanTree::Join { input_left, input_right, .. } => all_scan_cols(*input_left, n)
            && all_scan_cols(*input_right, n),
        PlanTree::HStack { input, .. } => all_scan_cols(*input, n),
        PlanTree::Distinct { input, .. } => all_scan_cols(*input, n),
        PlanTree::MapFunction { input, .. } => all_scan_cols(*input, n),
        PlanTree::Union { inputs, .. } => all_scan_cols_all(inputs, n),
        PlanTree::HConcat { inputs, .. } => all_scan_cols_all(inputs, n),
        PlanTree::ExtContext { input, contexts, .. } => all_scan_cols(*input, n)
            && all_scan_cols_all(contexts, n),
        PlanTree::Sink { input, .. } => all_scan_cols(*input, n),
        PlanTree::SinkMultiple { inputs } => all_scan_cols_all(inputs, n),
        PlanTree::MergeSorted { input_left, input_right, .. } => all_scan_cols(*input_left, n)
            && all_scan_cols(*input_right, n),
        PlanTree::Invalid => true,
    }
}

/// Every concrete dataset leaf in any tree of the list has exactly `n`
/// columns.
pub open spec fn all_scan_cols_all(ts: Seq<PlanTree>, n: nat) -> bool
    decreases ts,
{
    ts.len() == 0 || (all_scan_cols(ts[0], n) && all_scan_cols_all(ts.drop_first(), n))
}

/// How many placeholder leaves the tree holds.
pub open spec fn n_placeholders(t: PlanTree) -> nat
    decreases t,
{
    match t {
        PlanTree::PlaceholderScan { .. } => 1,
        PlanTree::Slice { input, .. } => n_placeholders(*input),
        PlanTree::Filter { input, .. } => n_placeholders(*input),
        PlanTree::Scan { .. } => 0,
        PlanTree::DataFrameScan { .. } => 0,
        PlanTree::SimpleProjection { input, .. } => n_placeholders(*input),
        PlanTree::Select { input, .. } => n_placeholders(*input),
        PlanTree::Sort { input, .. } => n_placeholders(*input),
        PlanTree::Cache { input, .. } => n_placeholders(*input),
        PlanTree::GroupBy { input, .. } => n_placeholders(*input),
        PlanTree::Join { input_left, input_right, .. } => n_placeholders(*input_left)
            + n_placeholders(*input_right),
        PlanTree::HStack { input, .. } => n_placeholders(*input),
        PlanTree::Distinct { input, .. } => n_placeholders(*input),
        PlanTree::MapFunction { input, .. } => n_placeholders(*input),
        PlanTree::Union { inputs, .. } => n_placeholders_all(inputs),
        PlanTree::HConcat { inputs, .. } => n_placeholders_all(inputs),
        PlanTree::ExtContext { input, contexts, .. } => n_placeholders(*input)
            + n_placeholders_all(contexts),
        PlanTree::Sink { input, .. } => n_placeholders(*input),
        PlanTree::SinkMultiple { inputs } => n_placeholders_all(inputs),
        PlanTree::MergeSorted { input_left, input_right, .. } => n_placeholders(*input_left)
            + n_placeholders(*input_right),
        PlanTree::Invalid => 0,
    }
}

/// How many placeholder leaves the trees of the list hold together.
pub open spec fn n_placeholders_all(ts: Seq<PlanTree>) -> nat
    decreases ts,
{
    if ts.len() == 0 {
        0
    } else {
        n_placeholders(ts[0]) + n_placeholders_all(ts.drop_first())
    }
}

/// How many concrete dataset leaves the tree holds.
pub open spec fn n_scans(t: PlanTree) -> nat
    decreases t,
{
    match t {
        PlanTree::DataFrameScan { .. } => 1,
        PlanTree::PlaceholderScan { .. } => 0,
        PlanTree::Slice { input, .. } => n_scans(*input),
        PlanTree::Filter { input, .. } => n_scans(*input),
        PlanTree::Scan { .. } => 0,
        PlanTree::SimpleProjection { input, .. } => n_scans(*input),
        PlanTree::Select { input, .. } => n_scans(*input),
        PlanTree::Sort { input, .. } => n_scans(*input),
        PlanTree::Cache { input, .. } => n_scans(*input),
        PlanTree::GroupBy { input, .. } => n_scans(*input),
        PlanTree::Join { input_left, input_right, .. } => n_scans(*input_left) + n_scans(
            *input_right,
        ),
        PlanTree::HStack { input, .. } => n_scans(*input),
        PlanTree::Distinct { input, .. } => n_scans(*input),
        PlanTree::MapFunction { input, .. } => n_scans(*input),
        PlanTree::Union { inputs, .. } => n_scans_all(inputs),
        PlanTree::HConcat { inputs, .. } => n_scans_all(inputs),
        PlanTree::ExtContext { input, contexts, .. } => n_scans(*input) + n_scans_all(contexts),
        PlanTree::Sink { input, .. } => n_scans(*input),
        PlanTree::SinkMultiple { inputs } => n_scans_all(inputs),
        PlanTree::MergeSorted { input_left, input_right, .. } => n_scans(*input_left) + n_scans(
            *input_right,
        ),
        PlanTree::Invalid => 0,
    }
}

/// How many concrete dataset leaves the trees of the list hold together.
pub open spec fn n_scans_all(ts: Seq<PlanTree>) -> nat
    decreases ts,
{
    if ts.len() == 0 {
        0
    } else {
        n_scans(ts[0]) + n_scans_all(ts.drop_first())
    }
}

/// The tree with every concrete dataset leaf replaced by `d` and every
/// other node kept as it stands.
pub open spec fn subst_scans(t: PlanTree, d: PlanTree) -> PlanTree
    decreases t,
{
    match t {
        PlanTree::DataFrameScan { .. } => d,
        PlanTree::Slice { input, offset, len } => PlanTree::Slice {
            input: Box::new(subst_scans(*input, d)),
            offset,
            len,
        },
        PlanTree::Filter { input, predicate } => PlanTree::Filter {
            input: Box::new(subst_scans(*input, d)),
            predicate,
        },
        PlanTree::Scan { sources, file_schema, predicate, output_schema } => PlanTree::Scan {
            sources,
            file_schema,
            predicate,
            output_schema,
        },
        PlanTree::PlaceholderScan { schema, output_schema } => PlanTree::PlaceholderScan {
            schema,
            output_schema,
        },
        PlanTree::SimpleProjection { input, columns } => PlanTree::SimpleProjection {
            input: Box::new(subst_scans(*input, d)),
            columns,
        },
        PlanTree::Select { input, expr, schema, options } => PlanTree::Select {
            input: Box::new(subst_scans(*input, d)),
            expr,
            schema,
            options,
        },
        PlanTree::Sort { input, by_column, slice, sort_options } => PlanTree::Sort {
            input: Box::new(subst_scans(*input, d)),
            by_column,
            slice,
            sort_options,
        },
        PlanTree::Cache { input, id } => PlanTree::Cache {
            input: Box::new(subst_scans(*input, d)),
            id,
        },
        PlanTree::GroupBy { input, keys, aggs, schema, maintain_order, options } => {
            PlanTree::GroupBy {
                input: Box::new(subst_scans(*input, d)),
                keys,
                aggs,
                schema,
                maintain_order,
                options,
            }
        },
        PlanTree::Join { input_left, input_right, schema, left_on, right_on, options } => {
            PlanTree::Join {
                input_left: Box::new(subst_scans(*input_left, d)),
                input_right: Box::new(subst_scans(*input_right, d)),
                schema,
                left_on,
                right_on,
                options,
            }
        },
        PlanTree::HStack { input, exprs, schema, options } => PlanTree::HStack {
            input: Box::new(subst_scans(*input, d)),
            exprs,
            schema,
            options,
        },
        PlanTree::Distinct { input, options } => PlanTree::Distinct {
            input: Box::new(subst_scans(*input, d)),
            options,
        },
        PlanTree::MapFunction { input, function } => PlanTree::MapFunction {
            input: Box::new(subst_scans(*input, d)),
            function,
        },
        PlanTree::Union { inputs, options } => PlanTree::Union {
            inputs: subst_scans_all(inputs, d),
            options,
        },
        PlanTree::HConcat { inputs, schema, options } => PlanTree::HConcat {
            inputs: subst_scans_all(inputs, d),
            schema,
            options,
        },
        PlanTree::ExtContext { input, contexts, schema } => PlanTree::ExtContext {
            input: Box::new(subst_scans(*input, d)),
            contexts: subst_scans_all(contexts, d),
            schema,
        },
        PlanTree::Sink { input, payload } => PlanTree::Sink {
            input: Box::new(subst_scans(*input, d)),
            payload,
        },
        PlanTree::SinkMultiple { inputs } => PlanTree::SinkMultiple {
            inputs: subst_scans_all(inputs, d),
        },
        PlanTree::MergeSorted { input_left, input_right, key } => PlanTree::MergeSorted {
            input_left: Box::new(subst_scans(*input_left, d)),
            input_right: Box::new(subst_scans(*input_right, d)),
            key,
        },
        PlanTree::Invalid => PlanTree::Invalid,
    }
}

/// Each tree of the list with every concrete dataset leaf replaced by
/// `d`.
pub open spec fn subst_scans_all(ts: Seq<PlanTree>, d: PlanTree) -> Seq<PlanTree>
    decreases ts,
{
    if ts.len() == 0 {
        Seq::empty()
    } else {
        seq![subst_scans(ts[0], d)] + subst_scans_all(ts.drop_first(), d)
    }
}

/// Converting to a template keeps the shape of every node: the operator
/// (except a dataset leaf, which becomes a placeholder), the number of
/// inputs, and their order, with each input transformed in place — a
/// `Join` of `(L, R)` always yields a `Join` of the transformed `(L', R')`
/// in that order.
pub proof fn lemma_template_topology(t: PlanTree)
    ensures
        !(t is DataFrameScan) ==> tree_tag(template_tree(t)) == tree_tag(t),
        children_of(template_tree(t)).len() == children_of(t).len(),
        forall|i: int|
            0 <= i < children_of(t).len() ==> #[trigger] children_of(template_tree(t))[i]
                == template_tree(children_of(t)[i]),
{
    match t {
        PlanTree::Union { inputs, .. } => {
            lemma_template_trees_pointwise(inputs);
        },
        PlanTree::HConcat { inputs, .. } => {
            lemma_template_trees_pointwise(inputs);
        },
        PlanTree::SinkMultiple { inputs } => {
            lemma_template_trees_pointwise(inputs);
        },
        PlanTree::ExtContext { input, contexts, .. } => {
            lemma_template_trees_pointwise(contexts);
            assert(children_of(template_tree(t)) == seq![template_tree(*input)]
                + template_trees(contexts));
            assert forall|i: int| 0 <= i < children_of(t).len() implies #[trigger] children_of(
                template_tree(t),
            )[i] == template_tree(children_of(t)[i]) by {
                if i == 0 {
                } else {
                    assert(children_of(t)[i] == contexts[i - 1]);
                    assert(children_of(template_tree(t))[i] == template_trees(contexts)[i - 1]);
                }
            }
        },
        _ => {},
    }
}

/// Binding keeps the shape of every node that is not a placeholder: the
/// operator, the number of inputs, and their order, with each input
/// bound in place.
pub proof fn lemma_bind_topology(t: PlanTree, d: PlanTree)
    ensures
        bind_tree(t, d) matches Ok(u) ==> !(t is PlaceholderScan) ==> {
            &&& tree_tag(u) == tree_tag(t)
            &&& children_of(u).len() == children_of(t).len()
            &&& forall|i: int|
                0 <= i < children_of(t).len() ==> #[trigger] bind_tree(children_of(t)[i], d)
                    == Ok::<PlanTree, PlanError>(children_of(u)[i])
        },
{
    if bind_tree(t, d) is Ok && !(t is PlaceholderScan) {
        let u = bind_tree(t, d)->Ok_0;
        match t {
            PlanTree::Union { inputs, .. } => {
                lemma_bind_trees_pointwise(inputs, d);
            },
            PlanTree::HConcat { inputs, .. } => {
                lemma_bind_trees_pointwise(inputs, d);
            },
            PlanTree::SinkMultiple { inputs } => {
                lemma_bind_trees_pointwise(inputs, d);
            },
            PlanTree::ExtContext { input, contexts, .. } => {
                lemma_bind_trees_pointwise(contexts, d);
                let cs = bind_trees(contexts, d)->Ok_0;
                assert(children_of(u) == seq![bind_tree(*input, d)->Ok_0] + cs);
                assert forall|i: int| 0 <= i < children_of(t).len() implies #[trigger] bind_tree(
                    children_of(t)[i],
                    d,
                ) == Ok::<PlanTree, PlanError>(children_of(u)[i]) by {
                    if i == 0 {
                    } else {
                        assert(children_of(t)[i] == contexts[i - 1]);
                        assert(children_of(u)[i] == cs[i - 1]);
                    }
                }
            },
            _ => {},
        }
    }
}

/// An operator with no inputs other than a dataset leaf passes through
/// the template transform unchanged, payload and all.
pub proof fn lemma_template_leaf(t: PlanTree)
    requires
        children_of(t).len() == 0,
        !(t is DataFrameScan),
    ensures
        template_tree(t) == t,
{
    match t {
        PlanTree::Union { inputs, .. } => {
            assert(template_trees(inputs) =~= inputs);
        },
        PlanTree::HConcat { inputs, .. } => {
            assert(template_trees(inputs) =~= inputs);
        },
        PlanTree::SinkMultiple { inputs } => {
            assert(template_trees(inputs) =~= inputs);
        },
        _ => {},
    }
}

/// An operator with no inputs other than a placeholder passes through a
/// bind unchanged, payload and all.
pub proof fn lemma_bind_leaf(t: PlanTree, d: PlanTree)
    requires
        children_of(t).len() == 0,
        !(t is PlaceholderScan),
    ensures
        bind_tree(t, d) == Ok::<PlanTree, PlanError>(t),
{
    match t {
        PlanTree::Union { inputs, .. } => {
            assert(bind_trees(inputs, d) == Ok::<Seq<PlanTree>, PlanError>(inputs)) by {
                assert(inputs =~= Seq::<PlanTree>::empty());
            }
        },
        PlanTree::HConcat { inputs, .. } => {
            assert(bind_trees(inputs, d) == Ok::<Seq<PlanTree>, PlanError>(inputs)) by {
                assert(inputs =~= Seq::<PlanTree>::empty());
            }
        },
        PlanTree::SinkMultiple { inputs } => {
            assert(bind_trees(inputs, d) == Ok::<Seq<PlanTree>, PlanError>(inputs)) by {
                assert(inputs =~= Seq::<PlanTree>::empty());
            }
        },
        _ => {},
    }
}

/// Binding substitutes the supplied dataset leaf itself at a placeholder
/// whose column count matches: every placeholder site of a template
/// receives the same data.
pub proof fn lemma_bind_placeholder(t: PlanTree, d: PlanTree)
    requires
        t is PlaceholderScan,
        bind_tree(t, d) is Ok,
    ensures
        bind_tree(t, d) == Ok::<PlanTree, PlanError>(d),
{
}

/// A tree without placeholders trivially satisfies any placeholder
/// column-count condition.
pub proof fn lemma_no_placeholder_cols(t: PlanTree, n: nat)
    requires
        no_placeholder(t),
    ensures
        all_placeholder_cols(t, n),
    decreases t,
{
    match t {
        PlanTree::Slice { input, .. } => lemma_no_placeholder_cols(*input, n),
        PlanTree::Filter { input, .. } => lemma_no_placeholder_cols(*input, n),
        PlanTree::SimpleProjection { input, .. } => lemma_no_placeholder_cols(*input, n),
        PlanTree::Select { input, .. } => lemma_no_placeholder_cols(*input, n),
        PlanTree::Sort { input, .. } => lemma_no_placeholder_cols(*input, n),
        PlanTree::Cache { input, .. } => lemma_no_placeholder_cols(*input, n),
        PlanTree::GroupBy { input, .. } => lemma_no_placeholder_cols(*input, n),
        PlanTree::Join { input_left, input_right, .. } => {
            lemma_no_placeholder_cols(*input_left, n);
            lemma_no_placeholder_cols(*input_right, n);
        },
        PlanTree::HStack { input, .. } => lemma_no_placeholder_cols(*input, n),
        PlanTree::Distinct { input, .. } => lemma_no_placeholder_cols(*input, n),
        PlanTree::MapFunction { input, .. } => lemma_no_placeholder_cols(*input, n),
        PlanTree::Union { inputs, .. } => lemma_no_placeholder_cols_all(inputs, n),
        PlanTree::HConcat { inputs, .. } => lemma_no_placeholder_cols_all(inputs, n),
        PlanTree::ExtContext { input, contexts, .. } => {
            lemma_no_placeholder_cols(*input, n);
            lemma_no_placeholder_cols_all(contexts, n);
        },
        PlanTree::Sink { input, .. } => lemma_no_placeholder_cols(*input, n),
        PlanTree::SinkMultiple { inputs } => lemma_no_placeholder_cols_all(inputs, n),
        PlanTree::MergeSorted { input_left, input_right, .. } => {
            lemma_no_placeholder_cols(*input_left, n);
            lemma_no_placeholder_cols(*input_right, n);
        },
        _ => {},
    }
}

/// As [`lemma_no_placeholder_cols`], for a list of trees.
pub proof fn lemma_no_placeholder_cols_all(ts: Seq<PlanTree>, n: nat)
    requires
        no_placeholder_all(ts),
    ensures
        all_placeholder_cols_all(ts, n),
    decreases ts,
{
    if ts.len() > 0 {
        lemma_no_placeholder_cols(ts[0], n);
        lemma_no_placeholder_cols_all(ts.drop_first(), n);
    }
}

/// A template carries no concrete dataset leaf, and it has one
/// placeholder for every placeholder or dataset leaf of its source.
pub proof fn lemma_template_counts(t: PlanTree)
    ensures
        n_scans(template_tree(t)) == 0,
        n_placeholders(template_tree(t)) == n_placeholders(t) + n_scans(t),
    decreases t,
{
    match t {
        PlanTree::Slice { input, .. } => lemma_template_counts(*input),
        PlanTree::Filter { input, .. } => lemma_template_counts(*input),
        PlanTree::SimpleProjection { input, .. } => lemma_template_counts(*input),
        PlanTree::Select { input, .. } => lemma_template_counts(*input),
        PlanTree::Sort { input, .. } => lemma_template_counts(*input),
        PlanTree::Cache { input, .. } => lemma_template_counts(*input),
        PlanTree::GroupBy { input, .. } => lemma_template_counts(*input),
        PlanTree::Join { input_left, input_right, .. } => {
            lemma_template_counts(*input_left);
            lemma_template_counts(*input_right);
        },
        PlanTree::HStack { input, .. } => lemma_template_counts(*input),
        PlanTree::Distinct { input, .. } => lemma_template_counts(*input),
        PlanTree::MapFunction { input, .. } => lemma_template_counts(*input),
        PlanTree::Union { inputs, .. } => lemma_template_counts_all(inputs),
        PlanTree::HConcat { inputs, .. } => lemma_template_counts_all(inputs),
        PlanTree::ExtContext { input, contexts, .. } => {
            lemma_template_counts(*input);
            lemma_template_counts_all(contexts);
        },
        PlanTree::Sink { input, .. } => lemma_template_counts(*input),
        PlanTree::SinkMultiple { inputs } => lemma_template_counts_all(inputs),
        PlanTree::MergeSorted { input_left, input_right, .. } => {
            lemma_template_counts(*input_left);
            lemma_template_counts(*input_right);
        },
        _ => {},
    }
}

/// As [`lemma_template_counts`], for a list of trees.
pub proof fn lemma_template_counts_all(ts: Seq<PlanTree>)
    ensures
        n_scans_all(template_trees(ts)) == 0,
        n_placeholders_all(template_trees(ts)) == n_placeholders_all(ts) + n_scans_all(ts),
    decreases ts,
{
    if ts.len() > 0 {
        lemma_template_counts(ts[0]);
        lemma_template_counts_all(ts.drop_first());
        assert((seq![template_tree(ts[0])] + template_trees(ts.drop_first()))[0]
            == template_tree(ts[0]));
        assert((seq![template_tree(ts[0])] + template_trees(ts.drop_first())).drop_first()
            =~= template_trees(ts.drop_first()));
    }
}

/// The placeholders of a template all have `n` columns exactly when both
/// the dataset leaves and the placeholders of its source do: converting
/// a dataset leaf keeps its schema.
pub proof fn lemma_template_cols(t: PlanTree, n: nat)
    ensures
        all_placeholder_cols(template_tree(t), n) <==> (all_scan_cols(t, n)
            && all_placeholder_cols(t, n)),
    decreases t,
{
    match t {
        PlanTree::Slice { input, .. } => lemma_template_cols(*input, n),
        PlanTree::Filter { input, .. } => lemma_template_cols(*input, n),
        PlanTree::SimpleProjection { input, .. } => lemma_template_cols(*input, n),
        PlanTree::Select { input, .. } => lemma_template_cols(*input, n),
        PlanTree::Sort { input, .. } => lemma_template_cols(*input, n),
        PlanTree::Cache { input, .. } => lemma_template_cols(*input, n),
        PlanTree::GroupBy { input, .. } => lemma_template_cols(*input, n),
        PlanTree::Join { input_left, input_right, .. } => {
            lemma_template_cols(*input_left, n);
            lemma_template_cols(*input_right, n);
        },
        PlanTree::HStack { input, .. } => lemma_template_cols(*input, n),
        PlanTree::Distinct { input, .. } => lemma_template_cols(*input, n),
        PlanTree::MapFunction { input, .. } => lemma_template_cols(*input, n),
        PlanTree::Union { inputs, .. } => lemma_template_cols_all(inputs, n),
        PlanTree::HConcat { inputs, .. } => lemma_template_cols_all(inputs, n),
        PlanTree::ExtContext { input, contexts, .. } => {
            lemma_template_cols(*input, n);
            lemma_template_cols_all(contexts, n);
        },
        PlanTree::Sink { input, .. } => lemma_template_cols(*input, n),
        PlanTree::SinkMultiple { inputs } => lemma_template_cols_all(inputs, n),
        PlanTree::MergeSorted { input_left, input_right, .. } => {
            lemma_template_cols(*input_left, n);
            lemma_template_cols(*input_right, n);
        },
        _ => {},
    }
}

/// As [`lemma_template_cols`], for a list of trees.
pub proof fn lemma_template_cols_all(ts: Seq<PlanTree>, n: nat)
    ensures
        all_placeholder_cols_all(template_trees(ts), n) <==> (all_scan_cols_all(ts, n)
            && all_placeholder_cols_all(ts, n)),
    decreases ts,
{
    if ts.len() > 0 {
        lemma_template_cols(ts[0], n);
        lemma_template_cols_all(ts.drop_first(), n);
        assert((seq![template_tree(ts[0])] + template_trees(ts.drop_first()))[0]
            == template_tree(ts[0]));
        assert((seq![template_tree(ts[0])] + template_trees(ts.drop_first())).drop_first()
            =~= template_trees(ts.drop_first()));
    }
}

/// Exactly when a bind succeeds: either the tree holds no placeholder at
/// all, or the supplied tree is a concrete dataset leaf and every
/// placeholder's column count equals its column count.
pub proof fn lemma_bind_ok_iff(t: PlanTree, d: PlanTree)
    ensures
        bind_tree(t, d) is Ok <==> (no_placeholder(t) || (d matches PlanTree::DataFrameScan {
            schema: ds,
            ..
        } && all_placeholder_cols(t, ds.len()))),
    decreases t,
{
    match t {
        PlanTree::Slice { input, .. } => lemma_bind_ok_iff(*input, d),
        PlanTree::Filter { input, .. } => lemma_bind_ok_iff(*input, d),
        PlanTree::SimpleProjection { input, .. } => lemma_bind_ok_iff(*input, d),
        PlanTree::Select { input, .. } => lemma_bind_ok_iff(*input, d),
        PlanTree::Sort { input, .. } => lemma_bind_ok_iff(*input, d),
        PlanTree::Cache { input, .. } => lemma_bind_ok_iff(*input, d),
        PlanTree::GroupBy { input, .. } => lemma_bind_ok_iff(*input, d),
        PlanTree::Join { input_left, input_right, .. } => {
            lemma_bind_ok_iff(*input_left, d);
            lemma_bind_ok_iff(*input_right, d);
            lemma_cols_of_no_placeholder(*input_left, d);
            lemma_cols_of_no_placeholder(*input_right, d);
        },
        PlanTree::HStack { input, .. } => lemma_bind_ok_iff(*input, d),
        PlanTree::Distinct { input, .. } => lemma_bind_ok_iff(*input, d),
        PlanTree::MapFunction { input, .. } => lemma_bind_ok_iff(*input, d),
        PlanTree::Union { inputs, .. } => lemma_bind_ok_iff_all(inputs, d),
        PlanTree::HConcat { inputs, .. } => lemma_bind_ok_iff_all(inputs, d),
        PlanTree::ExtContext { input, contexts, .. } => {
            lemma_bind_ok_iff(*input, d);
            lemma_bind_ok_iff_all(contexts, d);
            lemma_cols_of_no_placeholder(*input, d);
            lemma_cols_of_no_placeholder_all(contexts, d);
        },
        PlanTree::Sink { input, .. } => lemma_bind_ok_iff(*input, d),
        PlanTree::SinkMultiple { inputs } => lemma_bind_ok_iff_all(inputs, d),
        PlanTree::MergeSorted { input_left, input_right, .. } => {
            lemma_bind_ok_iff(*input_left, d);
            lemma_bind_ok_iff(*input_right, d);
            lemma_cols_of_no_placeholder(*input_left, d);
            lemma_cols_of_no_placeholder(*input_right, d);
        },
        _ => {},
    }
}

/// Helper for the success condition: column-count conditions hold
/// vacuously of a subtree without placeholders.
proof fn lemma_cols_of_no_placeholder(t: PlanTree, d: PlanTree)
    ensures
        no_placeholder(t) ==> (d matches PlanTree::DataFrameScan { schema: ds, .. }
            ==> all_placeholder_cols(t, ds.len())),
{
    if no_placeholder(t) {
        match d {
            PlanTree::DataFrameScan { schema: ds, .. } => {
                lemma_no_placeholder_cols(t, ds.len());
            },
            _ => {},
        }
    }
}

/// As [`lemma_cols_of_no_placeholder`], for a list of trees.
proof fn lemma_cols_of_no_placeholder_all(ts: Seq<PlanTree>, d: PlanTree)
    ensures
        no_placeholder_all(ts) ==> (d matches PlanTree::DataFrameScan { schema: ds, .. }
            ==> all_placeholder_cols_all(ts, ds.len())),
{
    if no_placeholder_all(ts) {
        match d {
            PlanTree::DataFrameScan { schema: ds, .. } => {
                lemma_no_placeholder_cols_all(ts, ds.len());
            },
            _ => {},
        }
    }
}

/// As [`lemma_bind_ok_iff`], for a list of trees.
pub proof fn lemma_bind_ok_iff_all(ts: Seq<PlanTree>, d: PlanTree)
    ensures
        bind_trees(ts, d) is Ok <==> (no_placeholder_all(ts) || (d
            matches PlanTree::DataFrameScan { schema: ds, .. } && all_placeholder_cols_all(
            ts,
            ds.len(),
        ))),
    decreases ts,
{
    if ts.len() > 0 {
        lemma_bind_ok_iff(ts[0], d);
        lemma_bind_ok_iff_all(ts.drop_first(), d);
        lemma_cols_of_no_placeholder(ts[0], d);
        lemma_cols_of_no_placeholder_all(ts.drop_first(), d);
    }
}

/// On a schema mismatch the bind fails with exactly the two counts: the
/// placeholder's expected column count and the data's actual one.
pub proof fn lemma_bind_mismatch(t: PlanTree, d: PlanTree, n: nat)
    requires
        d matches PlanTree::DataFrameScan { schema: ds, .. } && n != ds.len(),
        !no_placeholder(t),
        all_placeholder_cols(t, n),
    ensures
        bind_tree(t, d) == Err::<PlanTree, PlanError>(
            PlanError::SchemaMismatch { expected: n as usize, got: d->DataFrameScan_schema.len() as usize },
        ),
    decreases t,
{
    let e = PlanError::SchemaMismatch {
        expected: n as usize,
        got: d->DataFrameScan_schema.len() as usize,
    };
    match t {
        PlanTree::Slice { input, .. } => lemma_bind_mismatch(*input, d, n),
        PlanTree::Filter { input, .. } => lemma_bind_mismatch(*input, d, n),
        PlanTree::SimpleProjection { input, .. } => lemma_bind_mismatch(*input, d, n),
        PlanTree::Select { input, .. } => lemma_bind_mismatch(*input, d, n),
        PlanTree::Sort { input, .. } => lemma_bind_mismatch(*input, d, n),
        PlanTree::Cache { input, .. } => lemma_bind_mismatch(*input, d, n),
        PlanTree::GroupBy { input, .. } => lemma_bind_mismatch(*input, d, n),
        PlanTree::Join { input_left, input_right, .. } => {
            if !no_placeholder(*input_left) {
                lemma_bind_mismatch(*input_left, d, n);
            } else {
                lemma_bind_ok_iff(*input_left, d);
                lemma_bind_mismatch(*input_right, d, n);
            }
        },
        PlanTree::HStack { input, .. } => lemma_bind_mismatch(*input, d, n),
        PlanTree::Distinct { input, .. } => lemma_bind_mismatch(*input, d, n),
        PlanTree::MapFunction { input, .. } => lemma_bind_mismatch(*input, d, n),
        PlanTree::Union { inputs, .. } => lemma_bind_mismatch_all(inputs, d, n),
        PlanTree::HConcat { inputs, .. } => lemma_bind_mismatch_all(inputs, d, n),
        PlanTree::ExtContext { input, contexts, .. } => {
            if !no_placeholder(*input) {
                lemma_bind_mismatch(*input, d, n);
            } else {
                lemma_bind_ok_iff(*input, d);
                lemma_bind_mismatch_all(contexts, d, n);
            }
        },
        PlanTree::Sink { input, .. } => lemma_bind_mismatch(*input, d, n),
        PlanTree::SinkMultiple { inputs } => lemma_bind_mismatch_all(inputs, d, n),
        PlanTree::MergeSorted { input_left, input_right, .. } => {
            if !no_placeholder(*input_left) {
                lemma_bind_mismatch(*input_left, d, n);
            } else {
                lemma_bind_ok_iff(*input_left, d);
                lemma_bind_mismatch(*input_right, d, n);
            }
        },
        _ => {},
    }
}

/// As [`lemma_bind_mismatch`], for a list of trees.
pub proof fn lemma_bind_mismatch_all(ts: Seq<PlanTree>, d: PlanTree, n: nat)
    requires
        d matches PlanTree::DataFrameScan { schema: ds, .. } && n != ds.len(),
        !no_placeholder_all(ts),
        all_placeholder_cols_all(ts, n),
    ensures
        bind_trees(ts, d) == Err::<Seq<PlanTree>, PlanError>(
            PlanError::SchemaMismatch { expected: n as usize, got: d->DataFrameScan_schema.len() as usize },
        ),
    decreases ts,
{
    if ts.len() > 0 {
        if !no_placeholder(ts[0]) {
            lemma_bind_mismatch(ts[0], d, n);
        } else {
            lemma_bind_ok_iff(ts[0], d);
            lemma_bind_mismatch_all(ts.drop_first(), d, n);
        }
    }
}

/// Binding to data that is not a concrete dataset leaf fails on the
/// first placeholder reached, whatever its schema.
pub proof fn lemma_bind_invalid_target(t: PlanTree, d: PlanTree)
    requires
        !(d is DataFrameScan),
        !no_placeholder(t),
    ensures
        bind_tree(t, d) == Err::<PlanTree, PlanError>(PlanError::InvalidBindTarget),
    decreases t,
{
    match t {
        PlanTree::Slice { input, .. } => lemma_bind_invalid_target(*input, d),
        PlanTree::Filter { input, .. } => lemma_bind_invalid_target(*input, d),
        PlanTree::SimpleProjection { input, .. } => lemma_bind_invalid_target(*input, d),
        PlanTree::Select { input, .. } => lemma_bind_invalid_target(*input, d),
        PlanTree::Sort { input, .. } => lemma_bind_invalid_target(*input, d),
        PlanTree::Cache { input, .. } => lemma_bind_invalid_target(*input, d),
        PlanTree::GroupBy { input, .. } => lemma_bind_invalid_target(*input, d),
        PlanTree::Join { input_left, input_right, .. } => {
            if !no_placeholder(*input_left) {
                lemma_bind_invalid_target(*input_left, d);
            } else {
                lemma_bind_ok_iff(*input_left, d);
                lemma_bind_invalid_target(*input_right, d);
            }
        },
        PlanTree::HStack { input, .. } => lemma_bind_invalid_target(*input, d),
        PlanTree::Distinct { input, .. } => lemma_bind_invalid_target(*input, d),
        PlanTree::MapFunction { input, .. } => lemma_bind_invalid_target(*input, d),
        PlanTree::Union { inputs, .. } => lemma_bind_invalid_target_all(inputs, d),
        PlanTree::HConcat { inputs, .. } => lemma_bind_invalid_target_all(inputs, d),
        PlanTree::ExtContext { input, contexts, .. } => {
            if !no_placeholder(*input) {
                lemma_bind_invalid_target(*input, d);
            } else {
                lemma_bind_ok_iff(*input, d);
                lemma_bind_invalid_target_all(contexts, d);
            }
        },
        PlanTree::Sink { input, .. } => lemma_bind_invalid_target(*input, d),
        PlanTree::SinkMultiple { inputs } => lemma_bind_invalid_target_all(inputs, d),
        PlanTree::MergeSorted { input_left, input_right, .. } => {
            if !no_placeholder(*input_left) {
                lemma_bind_invalid_target(*input_left, d);
            } else {
                lemma_bind_ok_iff(*input_left, d);
                lemma_bind_invalid_target(*input_right, d);
            }
        },
        _ => {},
    }
}

/// As [`lemma_bind_invalid_target`], for a list of trees.
pub proof fn lemma_bind_invalid_target_all(ts: Seq<PlanTree>, d: PlanTree)
    requires
        !(d is DataFrameScan),
        !no_placeholder_all(ts),
    ensures
        bind_trees(ts, d) == Err::<Seq<PlanTree>, PlanError>(PlanError::InvalidBindTarget),
    decreases ts,
{
    if ts.len() > 0 {
        if !no_placeholder(ts[0]) {
            lemma_bind_invalid_target(ts[0], d);
        } else {
            lemma_bind_ok_iff(ts[0], d);
            lemma_bind_invalid_target_all(ts.drop_first(), d);
        }
    }
}

/// A successful bind leaves no placeholder behind, and it has one
/// dataset leaf for every dataset leaf or placeholder of the template:
/// a template naming one placeholder schema from several branches gets
/// the data at every one of those sites.
pub proof fn lemma_bind_counts(t: PlanTree, d: PlanTree)
    ensures
        bind_tree(t, d) matches Ok(u) ==> n_placeholders(u) == 0 && n_scans(u) == n_scans(t)
            + n_placeholders(t),
    decreases t,
{
    match t {
        PlanTree::Slice { input, .. } => lemma_bind_counts(*input, d),
        PlanTree::Filter { input, .. } => lemma_bind_counts(*input, d),
        PlanTree::SimpleProjection { input, .. } => lemma_bind_counts(*input, d),
        PlanTree::Select { input, .. } => lemma_bind_counts(*input, d),
        PlanTree::Sort { input, .. } => lemma_bind_counts(*input, d),
        PlanTree::Cache { input, .. } => lemma_bind_counts(*input, d),
        PlanTree::GroupBy { input, .. } => lemma_bind_counts(*input, d),
        PlanTree::Join { input_left, input_right, .. } => {
            lemma_bind_counts(*input_left, d);
            lemma_bind_counts(*input_right, d);
        },
        PlanTree::HStack { input, .. } => lemma_bind_counts(*input, d),
        PlanTree::Distinct { input, .. } => lemma_bind_counts(*input, d),
        PlanTree::MapFunction { input, .. } => lemma_bind_counts(*input, d),
        PlanTree::Union { inputs, .. } => lemma_bind_counts_all(inputs, d),
        PlanTree::HConcat { inputs, .. } => lemma_bind_counts_all(inputs, d),
        PlanTree::ExtContext { input, contexts, .. } => {
            lemma_bind_counts(*input, d);
            lemma_bind_counts_all(contexts, d);
        },
        PlanTree::Sink { input, .. } => lemma_bind_counts(*input, d),
        PlanTree::SinkMultiple { inputs } => lemma_bind_counts_all(inputs, d),
        PlanTree::MergeSorted { input_left, input_right, .. } => {
            lemma_bind_counts(*input_left, d);
            lemma_bind_counts(*input_right, d);
        },
        _ => {},
    }
}

/// As [`lemma_bind_counts`], for a list of trees.
pub proof fn lemma_bind_counts_all(ts: Seq<PlanTree>, d: PlanTree)
    ensures
        bind_trees(ts, d) matches Ok(us) ==> n_placeholders_all(us) == 0 && n_scans_all(us)
            == n_scans_all(ts) + n_placeholders_all(ts),
    decreases ts,
{
    if ts.len() > 0 {
        lemma_bind_counts(ts[0], d);
        lemma_bind_counts_all(ts.drop_first(), d);
        if bind_trees(ts, d) is Ok {
            let u0 = bind_tree(ts[0], d)->Ok_0;
            let us_rest = bind_trees(ts.drop_first(), d)->Ok_0;
            assert((seq![u0] + us_rest)[0] == u0);
            assert((seq![u0] + us_rest).drop_first() =~= us_rest);
        }
    }
}

/// The round trip: converting a materialized plan (one without
/// placeholders) to a template and binding the template to a dataset
/// leaf whose column count matches every dataset leaf of the plan
/// succeeds, and yields exactly the plan with each dataset leaf replaced
/// by the supplied data.
pub proof fn lemma_round_trip(t: PlanTree, d: PlanTree)
    requires
        d is DataFrameScan,
        no_placeholder(t),
        all_scan_cols(t, d->DataFrameScan_schema.len()),
    ensures
        bind_tree(template_tree(t), d) == Ok::<PlanTree, PlanError>(subst_scans(t, d)),
    decreases t,
{
    match t {
        PlanTree::Slice { input, .. } => lemma_round_trip(*input, d),
        PlanTree::Filter { input, .. } => lemma_round_trip(*input, d),
        PlanTree::SimpleProjection { input, .. } => lemma_round_trip(*input, d),
        PlanTree::Select { input, .. } => lemma_round_trip(*input, d),
        PlanTree::Sort { input, .. } => lemma_round_trip(*input, d),
        PlanTree::Cache { input, .. } => lemma_round_trip(*input, d),
        PlanTree::GroupBy { input, .. } => lemma_round_trip(*input, d),
        PlanTree::Join { input_left, input_right, .. } => {
            lemma_round_trip(*input_left, d);
            lemma_round_trip(*input_right, d);
        },
        PlanTree::HStack { input, .. } => lemma_round_trip(*input, d),
        PlanTree::Distinct { input, .. } => lemma_round_trip(*input, d),
        PlanTree::MapFunction { input, .. } => lemma_round_trip(*input, d),
        PlanTree::Union { inputs, .. } => lemma_round_trip_all(inputs, d),
        PlanTree::HConcat { inputs, .. } => lemma_round_trip_all(inputs, d),
        PlanTree::ExtContext { input, contexts, .. } => {
            lemma_round_trip(*input, d);
            lemma_round_trip_all(contexts, d);
        },
        PlanTree::Sink { input, .. } => lemma_round_trip(*input, d),
        PlanTree::SinkMultiple { inputs } => lemma_round_trip_all(inputs, d),
        PlanTree::MergeSorted { input_left, input_right, .. } => {
            lemma_round_trip(*input_left, d);
            lemma_round_trip(*input_right, d);
        },
        _ => {},
    }
}

/// As [`lemma_round_trip`], for a list of trees.
pub proof fn lemma_round_trip_all(ts: Seq<PlanTree>, d: PlanTree)
    requires
        d is DataFrameScan,
        no_placeholder_all(ts),
        all_scan_cols_all(ts, d->DataFrameScan_schema.len()),
    ensures
        bind_trees(template_trees(ts), d) == Ok::<Seq<PlanTree>, PlanError>(
            subst_scans_all(ts, d),
        ),
    decreases ts,
{
    if ts.len() > 0 {
        lemma_round_trip(ts[0], d);
        lemma_round_trip_all(ts.drop_first(), d);
        assert((seq![template_tree(ts[0])] + template_trees(ts.drop_first()))[0]
            == template_tree(ts[0]));
        assert((seq![template_tree(ts[0])] + template_trees(ts.drop_first())).drop_first()
            =~= template_trees(ts.drop_first()));
    }
}

} // verus!
