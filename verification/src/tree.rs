//! The mathematical model of a plan: the tree a root node denotes once
//! every handle is followed into its arena. Both structural transforms
//! are specified as pure functions over these trees, and the executable
//! walks are proved to realize them.

use vstd::prelude::*;
use crate::arena::Node;
use crate::error::PlanError;
use crate::expr::ExprIR;
use crate::functions::FunctionIRV;
use crate::ir::IR;
use crate::options::DistinctOptionsV;
use crate::options::GroupbyOptions;
use crate::options::HConcatOptions;
use crate::options::JoinOptionsIR;
use crate::options::ProjectionOptions;
use crate::options::SinkTypeIR;
use crate::options::SortMultipleOptionsV;
use crate::options::UnionOptions;
use crate::schema::ColumnDef;
use crate::schema::DataFrameV;
use crate::schema::opt_schema_view;

verus! {

/// A plan unfolded into a tree: each operator holds the trees of its
/// inputs directly, and payloads appear by their abstract values. A node
/// that several parents share in an arena appears once under each parent
/// here, which is exactly how the rebuilding transforms treat it.
#[verifier::ext_equal]
pub enum PlanTree {
    Slice { input: Box<PlanTree>, offset: i64, len: u32 },
    Filter { input: Box<PlanTree>, predicate: ExprIR },
    Scan {
        sources: Seq<String>,
        file_schema: Seq<ColumnDef>,
        predicate: Option<ExprIR>,
        output_schema: Option<Seq<ColumnDef>>,
    },
    DataFrameScan { df: DataFrameV, schema: Seq<ColumnDef>, output_schema: Option<Seq<ColumnDef>> },
    PlaceholderScan { schema: Seq<ColumnDef>, output_schema: Option<Seq<ColumnDef>> },
    SimpleProjection { input: Box<PlanTree>, columns: Seq<ColumnDef> },
    Select {
        input: Box<PlanTree>,
        expr: Seq<ExprIR>,
        schema: Seq<ColumnDef>,
        options: ProjectionOptions,
    },
    Sort {
        input: Box<PlanTree>,
        by_column: Seq<ExprIR>,
        slice: Option<(i64, usize)>,
        sort_options: SortMultipleOptionsV,
    },
    Cache { input: Box<PlanTree>, id: u64 },
    GroupBy {
        input: Box<PlanTree>,
        keys: Seq<ExprIR>,
        aggs: Seq<ExprIR>,
        schema: Seq<ColumnDef>,
        maintain_order: bool,
        options: GroupbyOptions,
    },
    Join {
        input_left: Box<PlanTree>,
        input_right: Box<PlanTree>,
        schema: Seq<ColumnDef>,
        left_on: Seq<ExprIR>,
        right_on: Seq<ExprIR>,
        options: JoinOptionsIR,
    },
    HStack {
        input: Box<PlanTree>,
        exprs: Seq<ExprIR>,
        schema: Seq<ColumnDef>,
        options: ProjectionOptions,
    },
    Distinct { input: Box<PlanTree>, options: DistinctOptionsV },
    MapFunction { input: Box<PlanTree>, function: FunctionIRV },
    Union { inputs: Seq<PlanTree>, options: UnionOptions },
    HConcat { inputs: Seq<PlanTree>, schema: Seq<ColumnDef>, options: HConcatOptions },
    ExtContext { input: Box<PlanTree>, contexts: Seq<PlanTree>, schema: Seq<ColumnDef> },
    Sink { input: Box<PlanTree>, payload: SinkTypeIR },
    SinkMultiple { inputs: Seq<PlanTree> },
    MergeSorted { input_left: Box<PlanTree>, input_right: Box<PlanTree>, key: String },
    Invalid,
}

/// The tree denoted by `node` in arena `a`. Handles are only followed
/// downward — a handle at or above the current entry (which a well-formed
/// arena never contains) denotes `Invalid` — so the unfolding is well
/// founded on any arena.
pub open spec fn tree_of(a: Seq<IR>, node: int) -> PlanTree
    decreases node, 1int, 0int,
{
    if 0 <= node < a.len() {
        match a[node] {
            IR::Slice { input, offset, len } => PlanTree::Slice {
                input: Box::new(child_tree(a, input, node)),
                offset,
                len,
            },
            IR::Filter { input, predicate } => PlanTree::Filter {
                input: Box::new(child_tree(a, input, node)),
                predicate,
            },
            IR::Scan { sources, file_schema, predicate, output_schema } => PlanTree::Scan {
                sources: sources@,
                file_schema: file_schema@,
                predicate,
                output_schema: opt_schema_view(output_schema),
            },
            IR::DataFrameScan { df, schema, output_schema } => PlanTree::DataFrameScan {
                df: df@,
                schema: schema@,
                output_schema: opt_schema_view(output_schema),
            },
            IR::PlaceholderScan { schema, output_schema } => PlanTree::PlaceholderScan {
                schema: schema@,
                output_schema: opt_schema_view(output_schema),
            },
            IR::SimpleProjection { input, columns } => PlanTree::SimpleProjection {
                input: Box::new(child_tree(a, input, node)),
                columns: columns@,
            },
            IR::Select { input, expr, schema, options } => PlanTree::Select {
                input: Box::new(child_tree(a, input, node)),
                expr: expr@,
                schema: schema@,
                options,
            },
            IR::Sort { input, by_column, slice, sort_options } => PlanTree::Sort {
                input: Box::new(child_tree(a, input, node)),
                by_column: by_column@,
                slice,
                sort_options: sort_options@,
            },
            IR::Cache { input, id } => PlanTree::Cache {
                input: Box::new(child_tree(a, input, node)),
                id,
            },
            IR::GroupBy { input, keys, aggs, schema, maintain_order, options } => {
                PlanTree::GroupBy {
                    input: Box::new(child_tree(a, input, node)),
                    keys: keys@,
                    aggs: aggs@,
                    schema: schema@,
                    maintain_order,
                    options,
                }
            },
            IR::Join { input_left, input_right, schema, left_on, right_on, options } => {
                PlanTree::Join {
                    input_left: Box::new(child_tree(a, input_left, node)),
                    input_right: Box::new(child_tree(a, input_right, node)),
                    schema: schema@,
                    left_on: left_on@,
                    right_on: right_on@,
                    options,
                }
            },
            IR::HStack { input, exprs, schema, options } => PlanTree::HStack {
                input: Box::new(child_tree(a, input, node)),
                exprs: exprs@,
                schema: schema@,
                options,
            },
            IR::Distinct { input, options } => PlanTree::Distinct {
                input: Box::new(child_tree(a, input, node)),
                options: options@,
            },
            IR::MapFunction { input, function } => PlanTree::MapFunction {
                input: Box::new(child_tree(a, input, node)),
                function: function@,
            },
            IR::Union { inputs, options } => PlanTree::Union {
                inputs: child_trees(a, inputs@, node),
                options,
            },
            IR::HConcat { inputs, schema, options } => PlanTree::HConcat {
                inputs: child_trees(a, inputs@, node),
                schema: schema@,
                options,
            },
            IR::ExtContext { input, contexts, schema } => PlanTree::ExtContext {
                input: Box::new(child_tree(a, input, node)),
                contexts: child_trees(a, contexts@, node),
                schema: schema@,
            },
            IR::Sink { input, payload } => PlanTree::Sink {
                input: Box::new(child_tree(a, input, node)),
                payload,
            },
            IR::SinkMultiple { inputs } => PlanTree::SinkMultiple {
                inputs: child_trees(a, inputs@, node),
            },
            IR::MergeSorted { input_left, input_right, key } => PlanTree::MergeSorted {
                input_left: Box::new(child_tree(a, input_left, node)),
                input_right: Box::new(child_tree(a, input_right, node)),
                key,
            },
            IR::Invalid => PlanTree::Invalid,
        }
    } else {
        PlanTree::Invalid
    }
}

/// The tree denoted by the handle `n` when read from an entry at index
/// `bound`: followed only if it points strictly downward.
pub open spec fn child_tree(a: Seq<IR>, n: Node, bound: int) -> PlanTree
    decreases bound, 0int, 0int,
{
    if n.0 < bound {
        tree_of(a, n.0 as int)
    } else {
        PlanTree::Invalid
    }
}

/// The trees denoted by a list of handles, in order.
pub open spec fn child_trees(a: Seq<IR>, ns: Seq<Node>, bound: int) -> Seq<PlanTree>
    decreases bound, 0int, ns.len(),
{
    if ns.len() == 0 {
        Seq::empty()
    } else {
        seq![child_tree(a, ns[0], bound)] + child_trees(a, ns.drop_first(), bound)
    }
}

/// `b` is `a` with zero or more entries appended: the entries of `a` are
/// still in place. Stated entry by entry so that the fact carries across
/// several appends without help.
pub open spec fn extends(b: Seq<IR>, a: Seq<IR>) -> bool {
    a.len() <= b.len() && forall|i: int| 0 <= i < a.len() ==> a[i] == #[trigger] b[i]
}

/// `child_trees` element by element.
pub proof fn lemma_child_trees_pointwise(a: Seq<IR>, ns: Seq<Node>, bound: int)
    ensures
        child_trees(a, ns, bound).len() == ns.len(),
        forall|i: int|
            0 <= i < ns.len() ==> #[trigger] child_trees(a, ns, bound)[i] == child_tree(
                a,
                ns[i],
                bound,
            ),
    decreases ns.len(),
{
    if ns.len() > 0 {
        lemma_child_trees_pointwise(a, ns.drop_first(), bound);
    }
}

/// Entries already in an arena keep their denotation when the arena
/// grows: the unfolding of `node` reads only entries at or below it.
pub proof fn lemma_tree_of_prefix(a1: Seq<IR>, a2: Seq<IR>, node: int)
    requires
        extends(a2, a1),
        node < a1.len(),
    ensures
        tree_of(a1, node) == tree_of(a2, node),
    decreases node, 1int, 0int,
{
    if 0 <= node {
        assert(a1[node] == a2[node]);
        match a1[node] {
            IR::Slice { input, .. } => lemma_child_tree_prefix(a1, a2, input, node),
            IR::Filter { input, .. } => lemma_child_tree_prefix(a1, a2, input, node),
            IR::Scan { .. } => {},
            IR::DataFrameScan { .. } => {},
            IR::PlaceholderScan { .. } => {},
            IR::SimpleProjection { input, .. } => lemma_child_tree_prefix(a1, a2, input, node),
            IR::Select { input, .. } => lemma_child_tree_prefix(a1, a2, input, node),
            IR::Sort { input, .. } => lemma_child_tree_prefix(a1, a2, input, node),
            IR::Cache { input, .. } => lemma_child_tree_prefix(a1, a2, input, node),
            IR::GroupBy { input, .. } => lemma_child_tree_prefix(a1, a2, input, node),
            IR::Join { input_left, input_right, .. } => {
                lemma_child_tree_prefix(a1, a2, input_left, node);
                lemma_child_tree_prefix(a1, a2, input_right, node);
            },
            IR::HStack { input, .. } => lemma_child_tree_prefix(a1, a2, input, node),
            IR::Distinct { input, .. } => lemma_child_tree_prefix(a1, a2, input, node),
            IR::MapFunction { input, .. } => lemma_child_tree_prefix(a1, a2, input, node),
            IR::Union { inputs, .. } => lemma_child_trees_prefix(a1, a2, inputs@, node),
            IR::HConcat { inputs, .. } => lemma_child_trees_prefix(a1, a2, inputs@, node),
            IR::ExtContext { input, contexts, .. } => {
                lemma_child_tree_prefix(a1, a2, input, node);
                lemma_child_trees_prefix(a1, a2, contexts@, node);
            },
            IR::Sink { input, .. } => lemma_child_tree_prefix(a1, a2, input, node),
            IR::SinkMultiple { inputs } => lemma_child_trees_prefix(a1, a2, inputs@, node),
            IR::MergeSorted { input_left, input_right, .. } => {
                lemma_child_tree_prefix(a1, a2, input_left, node);
                lemma_child_tree_prefix(a1, a2, input_right, node);
            },
            IR::Invalid => {},
        }
    }
}

/// As [`lemma_tree_of_prefix`], for one guarded handle.
pub proof fn lemma_child_tree_prefix(a1: Seq<IR>, a2: Seq<IR>, n: Node, bound: int)
    requires
        extends(a2, a1),
        bound <= a1.len(),
    ensures
        child_tree(a1, n, bound) == child_tree(a2, n, bound),
    decreases bound, 0int, 0int,
{
    if n.0 < bound {
        lemma_tree_of_prefix(a1, a2, n.0 as int);
    }
}

/// As [`lemma_tree_of_prefix`], for a list of handles.
pub proof fn lemma_child_trees_prefix(a1: Seq<IR>, a2: Seq<IR>, ns: Seq<Node>, bound: int)
    requires
        extends(a2, a1),
        bound <= a1.len(),
    ensures
        child_trees(a1, ns, bound) == child_trees(a2, ns, bound),
    decreases bound, 0int, ns.len(),
{
    if ns.len() > 0 {
        lemma_child_tree_prefix(a1, a2, ns[0], bound);
        lemma_child_trees_prefix(a1, a2, ns.drop_first(), bound);
    }
}

/// The template of a plan: the same tree with every concrete dataset
/// leaf replaced by a placeholder of the same schema, and every other
/// node re-created unchanged. Never fails.
pub open spec fn template_tree(t: PlanTree) -> PlanTree
    decreases t,
{
    match t {
        PlanTree::DataFrameScan { df, schema, output_schema } => PlanTree::PlaceholderScan {
            schema,
            output_schema,
        },
        PlanTree::Slice { input, offset, len } => PlanTree::Slice {
            input: Box::new(template_tree(*input)),
            offset,
            len,
        },
        PlanTree::Filter { input, predicate } => PlanTree::Filter {
            input: Box::new(template_tree(*input)),
            predicate,
        },
        PlanTree::Scan { sources, file_schema, predicate, output_schema } => PlanTree::Scan {
            sources,
            file_schema,
            predicate,
            output_schema,
        },
        PlanTree::PlaceholderScan { schema, output_schema } => PlanTree::PlaceholderScan {
            schema,
            output_schema,
        },
        PlanTree::SimpleProjection { input, columns } => PlanTree::SimpleProjection {
            input: Box::new(template_tree(*input)),
            columns,
        },
        PlanTree::Select { input, expr, schema, options } => PlanTree::Select {
            input: Box::new(template_tree(*input)),
            expr,
            schema,
            options,
        },
        PlanTree::Sort { input, by_column, slice, sort_options } => PlanTree::Sort {
            input: Box::new(template_tree(*input)),
            by_column,
            slice,
            sort_options,
        },
        PlanTree::Cache { input, id } => PlanTree::Cache {
            input: Box::new(template_tree(*input)),
            id,
        },
        PlanTree::GroupBy { input, keys, aggs, schema, maintain_order, options } => {
            PlanTree::GroupBy {
                input: Box::new(template_tree(*input)),
                keys,
                aggs,
                schema,
                maintain_order,
                options,
            }
        },
        PlanTree::Join { input_left, input_right, schema, left_on, right_on, options } => {
            PlanTree::Join {
                input_left: Box::new(template_tree(*input_left)),
                input_right: Box::new(template_tree(*input_right)),
                schema,
                left_on,
                right_on,
                options,
            }
        },
        PlanTree::HStack { input, exprs, schema, options } => PlanTree::HStack {
            input: Box::new(template_tree(*input)),
            exprs,
            schema,
            options,
        },
        PlanTree::Distinct { input, options } => PlanTree::Distinct {
            input: Box::new(template_tree(*input)),
            options,
        },
        PlanTree::MapFunction { input, function } => PlanTree::MapFunction {
            input: Box::new(template_tree(*input)),
            function,
        },
        PlanTree::Union { inputs, options } => PlanTree::Union {
            inputs: template_trees(inputs),
            options,
        },
        PlanTree::HConcat { inputs, schema, options } => PlanTree::HConcat {
            inputs: template_trees(inputs),
            schema,
            options,
        },
        PlanTree::ExtContext { input, contexts, schema } => PlanTree::ExtContext {
            input: Box::new(template_tree(*input)),
            contexts: template_trees(contexts),
            schema,
        },
        PlanTree::Sink { input, payload } => PlanTree::Sink {
            input: Box::new(template_tree(*input)),
            payload,
        },
        PlanTree::SinkMultiple { inputs } => PlanTree::SinkMultiple {
            inputs: template_trees(inputs),
        },
        PlanTree::MergeSorted { input_left, input_right, key } => PlanTree::MergeSorted {
            input_left: Box::new(template_tree(*input_left)),
            input_right: Box::new(template_tree(*input_right)),
            key,
        },
        PlanTree::Invalid => PlanTree::Invalid,
    }
}

/// The templates of a list of trees, in order.
pub open spec fn template_trees(ts: Seq<PlanTree>) -> Seq<PlanTree>
    decreases ts,
{
    if ts.len() == 0 {
        Seq::empty()
    } else {
        seq![template_tree(ts[0])] + template_trees(ts.drop_first())
    }
}

/// `template_trees` element by element.
pub proof fn lemma_template_trees_pointwise(ts: Seq<PlanTree>)
    ensures
        template_trees(ts).len() == ts.len(),
        forall|i: int|
            0 <= i < ts.len() ==> #[trigger] template_trees(ts)[i] == template_tree(ts[i]),
    decreases ts,
{
    if ts.len() > 0 {
        lemma_template_trees_pointwise(ts.drop_first());
    }
}

/// Binding a template to data: every placeholder is replaced by the
/// supplied tree `d`, after checking that `d` is a concrete dataset leaf
/// whose column count equals the placeholder's — only the count, not
/// column names or types. The walk is depth first and stops at the
/// first failing substitution.
pub open spec fn bind_tree(t: PlanTree, d: PlanTree) -> Result<PlanTree, PlanError>
    decreases t,
{
    match t {
        PlanTree::PlaceholderScan { schema, output_schema } => match d {
            PlanTree::DataFrameScan { df, schema: data_schema, output_schema: data_output } => {
                if schema.len() == data_schema.len() {
                    Ok(d)
                } else {
                    Err(
                        PlanError::SchemaMismatch {
                            expected: schema.len() as usize,
                            got: data_schema.len() as usize,
                        },
                    )
                }
            },
            _ => Err(PlanError::InvalidBindTarget),
        },
        PlanTree::Slice { input, offset, len } => match bind_tree(*input, d) {
            Ok(i2) => Ok(PlanTree::Slice { input: Box::new(i2), offset, len }),
            Err(e) => Err(e),
        },
        PlanTree::Filter { input, predicate } => match bind_tree(*input, d) {
            Ok(i2) => Ok(PlanTree::Filter { input: Box::new(i2), predicate }),
            Err(e) => Err(e),
        },
        PlanTree::Scan { sources, file_schema, predicate, output_schema } => Ok(
            PlanTree::Scan { sources, file_schema, predicate, output_schema },
        ),
        PlanTree::DataFrameScan { df, schema, output_schema } => Ok(
            PlanTree::DataFrameScan { df, schema, output_schema },
        ),
        PlanTree::SimpleProjection { input, columns } => match bind_tree(*input, d) {
            Ok(i2) => Ok(PlanTree::SimpleProjection { input: Box::new(i2), columns }),
            Err(e) => Err(e),
        },
        PlanTree::Select { input, expr, schema, options } => match bind_tree(*input, d) {
            Ok(i2) => Ok(PlanTree::Select { input: Box::new(i2), expr, schema, options }),
            Err(e) => Err(e),
        },
        PlanTree::Sort { input, by_column, slice, sort_options } => match bind_tree(*input, d) {
            Ok(i2) => Ok(PlanTree::Sort { input: Box::new(i2), by_column, slice, sort_options }),
            Err(e) => Err(e),
        },
        PlanTree::Cache { input, id } => match bind_tree(*input, d) {
            Ok(i2) => Ok(PlanTree::Cache { input: Box::new(i2), id }),
            Err(e) => Err(e),
        },
        PlanTree::GroupBy { input, keys, aggs, schema, maintain_order, options } => {
            match bind_tree(*input, d) {
                Ok(i2) => Ok(
                    PlanTree::GroupBy {
                        input: Box::new(i2),
                        keys,
                        aggs,
                        schema,
                        maintain_order,
                        options,
                    },
                ),
                Err(e) => Err(e),
            }
        },
        PlanTree::Join { input_left, input_right, schema, left_on, right_on, options } => {
            match bind_tree(*input_left, d) {
                Ok(l2) => match bind_tree(*input_right, d) {
                    Ok(r2) => Ok(
                        PlanTree::Join {
                            input_left: Box::new(l2),
                            input_right: Box::new(r2),
                            schema,
                            left_on,
                            right_on,
                            options,
                        },
                    ),
                    Err(e) => Err(e),
                },
                Err(e) => Err(e),
            }
        },
        PlanTree::HStack { input, exprs, schema, options } => match bind_tree(*input, d) {
            Ok(i2) => Ok(PlanTree::HStack { input: Box::new(i2), exprs, schema, options }),
            Err(e) => Err(e),
        },
        PlanTree::Distinct { input, options } => match bind_tree(*input, d) {
            Ok(i2) => Ok(PlanTree::Distinct { input: Box::new(i2), options }),
            Err(e) => Err(e),
        },
        PlanTree::MapFunction { input, function } => match bind_tree(*input, d) {
            Ok(i2) => Ok(PlanTree::MapFunction { input: Box::new(i2), function }),
            Err(e) => Err(e),
        },
        PlanTree::Union { inputs, options } => match bind_trees(inputs, d) {
            Ok(cs) => Ok(PlanTree::Union { inputs: cs, options }),
            Err(e) => Err(e),
        },
        PlanTree::HConcat { inputs, schema, options } => match bind_trees(inputs, d) {
            Ok(cs) => Ok(PlanTree::HConcat { inputs: cs, schema, options }),
            Err(e) => Err(e),
        },
        PlanTree::ExtContext { input, contexts, schema } => match bind_tree(*input, d) {
            Ok(i2) => match bind_trees(contexts, d) {
                Ok(cs) => Ok(
                    PlanTree::ExtContext { input: Box::new(i2), contexts: cs, schema },
                ),
                Err(e) => Err(e),
            },
            Err(e) => Err(e),
        },
        PlanTree::Sink { input, payload } => match bind_tree(*input, d) {
            Ok(i2) => Ok(PlanTree::Sink { input: Box::new(i2), payload }),
            Err(e) => Err(e),
        },
        PlanTree::SinkMultiple { inputs } => match bind_trees(inputs, d) {
            Ok(cs) => Ok(PlanTree::SinkMultiple { inputs: cs }),
            Err(e) => Err(e),
        },
        PlanTree::MergeSorted { input_left, input_right, key } => {
            match bind_tree(*input_left, d) {
                Ok(l2) => match bind_tree(*input_right, d) {
                    Ok(r2) => Ok(
                        PlanTree::MergeSorted {
                            input_left: Box::new(l2),
                            input_right: Box::new(r2),
                            key,
                        },
                    ),
                    Err(e) => Err(e),
                },
                Err(e) => Err(e),
            }
        },
        PlanTree::Invalid => Ok(PlanTree::Invalid),
    }
}

/// Binding each tree of a list, left to right, stopping at the first
/// error.
pub open spec fn bind_trees(ts: Seq<PlanTree>, d: PlanTree) -> Result<Seq<PlanTree>, PlanError>
    decreases ts,
{
    if ts.len() == 0 {
        Ok(Seq::empty())
    } else {
        match bind_tree(ts[0], d) {
            Ok(u) => match bind_trees(ts.drop_first(), d) {
                Ok(us) => Ok(seq![u] + us),
                Err(e) => Err(e),
            },
            Err(e) => Err(e),
        }
    }
}

/// Appending one tree to a bound list: the results compose.
pub proof fn lemma_bind_trees_push(ts: Seq<PlanTree>, x: PlanTree, d: PlanTree)
    ensures
        match bind_trees(ts, d) {
            Ok(us) => bind_trees(ts.push(x), d) == match bind_tree(x, d) {
                Ok(u) => Ok::<Seq<PlanTree>, PlanError>(us.push(u)),
                Err(e) => Err(e),
            },
            Err(e) => bind_trees(ts.push(x), d) == Err::<Seq<PlanTree>, PlanError>(e),
        },
    decreases ts,
{
    let pd = ts.push(x);
    if ts.len() == 0 {
        assert(pd[0] == x);
        assert(pd.drop_first() =~= Seq::<PlanTree>::empty());
        assert(bind_trees(ts, d) == Ok::<Seq<PlanTree>, PlanError>(Seq::empty()));
        match bind_tree(x, d) {
            Ok(u) => {
                assert(bind_trees(pd, d) == Ok::<Seq<PlanTree>, PlanError>(
                    seq![u] + Seq::empty(),
                ));
                assert(seq![u] + Seq::<PlanTree>::empty() =~= Seq::<PlanTree>::empty().push(u));
            },
            Err(e) => {
                assert(bind_trees(pd, d) == Err::<Seq<PlanTree>, PlanError>(e));
            },
        }
    } else {
        assert(pd[0] == ts[0]);
        assert(pd.drop_first() =~= ts.drop_first().push(x));
        lemma_bind_trees_push(ts.drop_first(), x, d);
        assert(bind_trees(pd.drop_first(), d) == bind_trees(ts.drop_first().push(x), d));
        match bind_tree(ts[0], d) {
            Ok(u) => {
                match bind_trees(ts.drop_first(), d) {
                    Ok(us) => {
                        assert(bind_trees(ts, d) == Ok::<Seq<PlanTree>, PlanError>(seq![u] + us));
                        match bind_tree(x, d) {
                            Ok(u2) => {
                                assert(bind_trees(ts.drop_first().push(x), d) == Ok::<
                                    Seq<PlanTree>,
                                    PlanError,
                                >(us.push(u2)));
                                assert(bind_trees(pd, d) == Ok::<Seq<PlanTree>, PlanError>(
                                    seq![u] + us.push(u2),
                                ));
                                assert(seq![u] + us.push(u2) =~= (seq![u] + us).push(u2));
                            },
                            Err(e) => {
                                assert(bind_trees(pd, d) == Err::<Seq<PlanTree>, PlanError>(e));
                            },
                        }
                    },
                    Err(e) => {
                        assert(bind_trees(pd, d) == Err::<Seq<PlanTree>, PlanError>(e));
                    },
                }
            },
            Err(e) => {
                assert(bind_trees(pd, d) == Err::<Seq<PlanTree>, PlanError>(e));
                assert(bind_trees(ts, d) == Err::<Seq<PlanTree>, PlanError>(e));
            },
        }
    }
}

/// If binding some leading part of a list fails, binding the whole list
/// fails with the same error.
pub proof fn lemma_bind_trees_prefix_err(ts: Seq<PlanTree>, d: PlanTree, j: int, e: PlanError)
    requires
        0 <= j <= ts.len(),
        bind_trees(ts.subrange(0, j), d) == Err::<Seq<PlanTree>, PlanError>(e),
    ensures
        bind_trees(ts, d) == Err::<Seq<PlanTree>, PlanError>(e),
    decreases ts,
{
    let p = ts.subrange(0, j);
    if j == 0 {
        assert(p =~= Seq::<PlanTree>::empty());
    } else {
        assert(p[0] == ts[0]);
        match bind_tree(ts[0], d) {
            Ok(_) => {
                assert(p.drop_first() =~= ts.drop_first().subrange(0, j - 1));
                lemma_bind_trees_prefix_err(ts.drop_first(), d, j - 1, e);
            },
            Err(_) => {},
        }
    }
}

/// A bound list, element by element: the bind succeeds exactly when every
/// element binds, and then the results line up pointwise.
pub proof fn lemma_bind_trees_pointwise(ts: Seq<PlanTree>, d: PlanTree)
    ensures
        (bind_trees(ts, d) is Ok) <==> (forall|i: int|
            0 <= i < ts.len() ==> #[trigger] bind_tree(ts[i], d) is Ok),
        bind_trees(ts, d) matches Ok(us) ==> us.len() == ts.len() && forall|i: int|
            0 <= i < ts.len() ==> #[trigger] bind_tree(ts[i], d) == Ok::<PlanTree, PlanError>(
                us[i],
            ),
    decreases ts,
{
    if ts.len() > 0 {
        let rest = ts.drop_first();
        lemma_bind_trees_pointwise(rest, d);
        assert forall|i: int| 1 <= i < ts.len() implies #[trigger] bind_tree(ts[i], d)
            == bind_tree(rest[i - 1], d) by {
            assert(ts[i] == rest[i - 1]);
        }
        if bind_trees(ts, d) is Ok {
            assert(bind_tree(ts[0], d) is Ok);
            assert(bind_trees(rest, d) is Ok);
            assert forall|i: int| 0 <= i < ts.len() implies #[trigger] bind_tree(ts[i], d)
                is Ok by {
                if i >= 1 {
                    assert(bind_tree(rest[i - 1], d) is Ok);
                }
            }
            let u0 = bind_tree(ts[0], d)->Ok_0;
            let us_rest = bind_trees(rest, d)->Ok_0;
            let us = bind_trees(ts, d)->Ok_0;
            assert(us == seq![u0] + us_rest);
            assert forall|i: int| 0 <= i < ts.len() implies #[trigger] bind_tree(ts[i], d)
                == Ok::<PlanTree, PlanError>(us[i]) by {
                if i == 0 {
                    assert(us[0] == u0);
                } else {
                    assert(us[i] == us_rest[i - 1]);
                    assert(bind_tree(rest[i - 1], d) == Ok::<PlanTree, PlanError>(us_rest[i - 1]));
                }
            }
        } else {
            if forall|i: int| 0 <= i < ts.len() ==> #[trigger] bind_tree(ts[i], d) is Ok {
                assert(bind_tree(ts[0], d) is Ok);
                assert forall|i: int| 0 <= i < rest.len() implies #[trigger] bind_tree(rest[i], d)
                    is Ok by {
                    assert(rest[i] == ts[i + 1]);
                    assert(bind_tree(ts[i + 1], d) is Ok);
                }
                assert(bind_trees(rest, d) is Ok);
                assert(bind_trees(ts, d) is Ok);
            }
        }
    }
}

} // verus!
