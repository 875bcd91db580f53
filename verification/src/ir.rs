//! The plan operator set: a closed tagged union of logical operators,
//! each carrying the handles of its inputs plus an operator-specific
//! payload. Handles refer to earlier entries of the plan arena, so a
//! well-formed arena is acyclic by construction and every walk from a
//! node visits only entries below it.

use vstd::prelude::*;
use crate::arena::Node;
use crate::expr::ExprIR;
use crate::functions::FunctionIR;
use crate::options::DistinctOptionsIR;
use crate::options::GroupbyOptions;
use crate::options::HConcatOptions;
use crate::options::JoinOptionsIR;
use crate::options::ProjectionOptions;
use crate::options::SinkTypeIR;
use crate::options::SortMultipleOptions;
use crate::options::UnionOptions;
use crate::schema::DataFrame;
use crate::schema::Schema;

verus! {

/// One logical plan operator, with the handles of its inputs.
pub enum IR {
    /// Keep `len` rows starting at `offset`.
    Slice { input: Node, offset: i64, len: u32 },
    /// Keep the rows on which the predicate holds.
    Filter { input: Node, predicate: ExprIR },
    /// Read from external sources; a leaf.
    Scan {
        sources: Vec<String>,
        file_schema: Schema,
        predicate: Option<ExprIR>,
        output_schema: Option<Schema>,
    },
    /// A concrete, fully materialized in-memory dataset; a leaf.
    DataFrameScan { df: DataFrame, schema: Schema, output_schema: Option<Schema> },
    /// Occupies the position of a `DataFrameScan` while carrying no data,
    /// only its schema; what a template holds in place of each dataset.
    PlaceholderScan { schema: Schema, output_schema: Option<Schema> },
    /// Keep only the named columns.
    SimpleProjection { input: Node, columns: Schema },
    /// Evaluate expressions over the input.
    Select { input: Node, expr: Vec<ExprIR>, schema: Schema, options: ProjectionOptions },
    /// Order the input by the given expressions.
    Sort {
        input: Node,
        by_column: Vec<ExprIR>,
        slice: Option<(i64, usize)>,
        sort_options: SortMultipleOptions,
    },
    /// Mark a subplan for reuse under a unique identifier.
    Cache { input: Node, id: u64 },
    /// Group and aggregate.
    GroupBy {
        input: Node,
        keys: Vec<ExprIR>,
        aggs: Vec<ExprIR>,
        schema: Schema,
        maintain_order: bool,
        options: GroupbyOptions,
    },
    /// Join two inputs.
    Join {
        input_left: Node,
        input_right: Node,
        schema: Schema,
        left_on: Vec<ExprIR>,
        right_on: Vec<ExprIR>,
        options: JoinOptionsIR,
    },
    /// Add computed columns to the input.
    HStack { input: Node, exprs: Vec<ExprIR>, schema: Schema, options: ProjectionOptions },
    /// Drop duplicate rows.
    Distinct { input: Node, options: DistinctOptionsIR },
    /// Apply an opaque function to the stream.
    MapFunction { input: Node, function: FunctionIR },
    /// Concatenate any number of inputs vertically.
    Union { inputs: Vec<Node>, options: UnionOptions },
    /// Concatenate any number of inputs horizontally.
    HConcat { inputs: Vec<Node>, schema: Schema, options: HConcatOptions },
    /// One primary input evaluated with extra side contexts in scope.
    ExtContext { input: Node, contexts: Vec<Node>, schema: Schema },
    /// Send the input to a sink target.
    Sink { input: Node, payload: SinkTypeIR },
    /// Run several plans side by side.
    SinkMultiple { inputs: Vec<Node> },
    /// Merge two inputs that are each sorted by `key`.
    MergeSorted { input_left: Node, input_right: Node, key: String },
    /// A sentinel that never occurs in a valid plan.
    Invalid,
}

impl Default for IR {
    fn default() -> (r: Self)
        ensures
            r is Invalid,
    {
        IR::Invalid
    }
}

/// All handles of a list lie below `bound`.
pub open spec fn nodes_below(ns: Seq<Node>, bound: int) -> bool {
    forall|i: int| 0 <= i < ns.len() ==> (#[trigger] ns[i]).0 < bound
}

/// Every input handle of `ir` lies strictly below `bound`. With `bound`
/// the node's own index this is the arena ordering invariant: a node only
/// refers to earlier entries.
pub open spec fn wf_ir(ir: IR, bound: int) -> bool {
    match ir {
        IR::Slice { input, .. } => input.0 < bound,
        IR::Filter { input, .. } => input.0 < bound,
        IR::Scan { .. } => true,
        IR::DataFrameScan { .. } => true,
        IR::PlaceholderScan { .. } => true,
        IR::SimpleProjection { input, .. } => input.0 < bound,
        IR::Select { input, .. } => input.0 < bound,
        IR::Sort { input, .. } => input.0 < bound,
        IR::Cache { input, .. } => input.0 < bound,
        IR::GroupBy { input, .. } => input.0 < bound,
        IR::Join { input_left, input_right, .. } => input_left.0 < bound && input_right.0 < bound,
        IR::HStack { input, .. } => input.0 < bound,
        IR::Distinct { input, .. } => input.0 < bound,
        IR::MapFunction { input, .. } => input.0 < bound,
        IR::Union { inputs, .. } => nodes_below(inputs@, bound),
        IR::HConcat { inputs, .. } => nodes_below(inputs@, bound),
        IR::ExtContext { input, contexts, .. } => input.0 < bound && nodes_below(contexts@, bound),
        IR::Sink { input, .. } => input.0 < bound,
        IR::SinkMultiple { inputs } => nodes_below(inputs@, bound),
        IR::MergeSorted { input_left, input_right, .. } => input_left.0 < bound
            && input_right.0 < bound,
        IR::Invalid => true,
    }
}

/// Each entry of the arena refers only to entries below it. Plans are
/// built bottom-up — children are allocated strictly before their parent
/// — so a freshly built plan satisfies this, and both structural
/// transforms keep it.
pub open spec fn wf_arena(a: Seq<IR>) -> bool {
    forall|i: int| 0 <= i < a.len() ==> wf_ir(#[trigger] a[i], i)
}

/// All expression references of a list lie below `m`.
pub open spec fn exprs_below(es: Seq<ExprIR>, m: int) -> bool {
    forall|i: int| 0 <= i < es.len() ==> (#[trigger] es[i]).node.0 < m
}

/// Every expression reference in the payload of `ir` is a valid index
/// into an expression arena of length `m`.
pub open spec fn ir_exprs_ok(ir: IR, m: int) -> bool {
    match ir {
        IR::Filter { predicate, .. } => predicate.node.0 < m,
        IR::Scan { predicate, .. } => match predicate {
            Some(p) => p.node.0 < m,
            None => true,
        },
        IR::Select { expr, .. } => exprs_below(expr@, m),
        IR::Sort { by_column, .. } => exprs_below(by_column@, m),
        IR::GroupBy { keys, aggs, .. } => exprs_below(keys@, m) && exprs_below(aggs@, m),
        IR::Join { left_on, right_on, .. } => exprs_below(left_on@, m) && exprs_below(
            right_on@,
            m,
        ),
        IR::HStack { exprs, .. } => exprs_below(exprs@, m),
        _ => true,
    }
}

/// Every expression reference anywhere in the arena is valid for an
/// expression arena of length `m`.
pub open spec fn exprs_ok(a: Seq<IR>, m: int) -> bool {
    forall|i: int| 0 <= i < a.len() ==> ir_exprs_ok(#[trigger] a[i], m)
}

/// Decides [`nodes_below`].
fn check_nodes_below(ns: &Vec<Node>, bound: usize) -> (r: bool)
    ensures
        r == nodes_below(ns@, bound as int),
{
    let mut i: usize = 0;
    while i < ns.len()
        invariant
            i <= ns@.len(),
            forall|j: int| 0 <= j < i ==> (#[trigger] ns@[j]).0 < bound,
        decreases ns@.len() - i,
    {
        if ns[i].0 >= bound {
            return false;
        }
        i = i + 1;
    }
    true
}

/// Decides [`exprs_below`].
fn check_exprs_below(es: &Vec<ExprIR>, m: usize) -> (r: bool)
    ensures
        r == exprs_below(es@, m as int),
{
    let mut i: usize = 0;
    while i < es.len()
        invariant
            i <= es@.len(),
            forall|j: int| 0 <= j < i ==> (#[trigger] es@[j]).node.0 < m,
        decreases es@.len() - i,
    {
        if es[i].node.0 >= m {
            return false;
        }
        i = i + 1;
    }
    true
}

/// The stable textual tag of each operator, used by diagnostics and plan
/// renderings.
pub open spec fn ir_tag(ir: IR) -> Seq<char> {
    match ir {
        IR::Slice { .. } => "SLICE"@,
        IR::Filter { .. } => "FILTER"@,
        IR::Scan { .. } => "SCAN"@,
        IR::DataFrameScan { .. } => "DF"@,
        IR::PlaceholderScan { .. } => "PLACEHOLDER"@,
        IR::SimpleProjection { .. } => "SIMPLE_PROJECTION"@,
        IR::Select { .. } => "SELECT"@,
        IR::Sort { .. } => "SORT"@,
        IR::Cache { .. } => "CACHE"@,
        IR::GroupBy { .. } => "GROUP_BY"@,
        IR::Join { .. } => "JOIN"@,
        IR::HStack { .. } => "H_STACK"@,
        IR::Distinct { .. } => "DISTINCT"@,
        IR::MapFunction { .. } => "MAP_FUNCTION"@,
        IR::Union { .. } => "UNION"@,
        IR::HConcat { .. } => "H_CONCAT"@,
        IR::ExtContext { .. } => "EXT_CONTEXT"@,
        IR::Sink { .. } => "SINK"@,
        IR::SinkMultiple { .. } => "SINK_MULTIPLE"@,
        IR::MergeSorted { .. } => "MERGE_SORTED"@,
        IR::Invalid => "INVALID"@,
    }
}

impl IR {
    /// Decides [`wf_ir`]: every input handle lies strictly below `bound`.
    pub fn inputs_below(&self, bound: usize) -> (r: bool)
        ensures
            r == wf_ir(*self, bound as int),
    {
        match self {
            IR::Slice { input, .. } => input.0 < bound,
            IR::Filter { input, .. } => input.0 < bound,
            IR::Scan { .. } => true,
            IR::DataFrameScan { .. } => true,
            IR::PlaceholderScan { .. } => true,
            IR::SimpleProjection { input, .. } => input.0 < bound,
            IR::Select { input, .. } => input.0 < bound,
            IR::Sort { input, .. } => input.0 < bound,
            IR::Cache { input, .. } => input.0 < bound,
            IR::GroupBy { input, .. } => input.0 < bound,
            IR::Join { input_left, input_right, .. } => input_left.0 < bound && input_right.0
                < bound,
            IR::HStack { input, .. } => input.0 < bound,
            IR::Distinct { input, .. } => input.0 < bound,
            IR::MapFunction { input, .. } => input.0 < bound,
            IR::Union { inputs, .. } => check_nodes_below(inputs, bound),
            IR::HConcat { inputs, .. } => check_nodes_below(inputs, bound),
            IR::ExtContext { input, contexts, .. } => input.0 < bound && check_nodes_below(
                contexts,
                bound,
            ),
            IR::Sink { input, .. } => input.0 < bound,
            IR::SinkMultiple { inputs } => check_nodes_below(inputs, bound),
            IR::MergeSorted { input_left, input_right, .. } => input_left.0 < bound
                && input_right.0 < bound,
            IR::Invalid => true,
        }
    }

    /// Decides [`ir_exprs_ok`]: every expression reference in this
    /// node's payload lies strictly below `m`.
    pub fn exprs_valid(&self, m: usize) -> (r: bool)
        ensures
            r == ir_exprs_ok(*self, m as int),
    {
        match self {
            IR::Filter { predicate, .. } => predicate.node.0 < m,
            IR::Scan { predicate, .. } => match predicate {
                Some(p) => p.node.0 < m,
                None => true,
            },
            IR::Select { expr, .. } => check_exprs_below(expr, m),
            IR::Sort { by_column, .. } => check_exprs_below(by_column, m),
            IR::GroupBy { keys, aggs, .. } => check_exprs_below(keys, m) && check_exprs_below(
                aggs,
                m,
            ),
            IR::Join { left_on, right_on, .. } => check_exprs_below(left_on, m)
                && check_exprs_below(right_on, m),
            IR::HStack { exprs, .. } => check_exprs_below(exprs, m),
            _ => true,
        }
    }

    /// The stable upper-snake-case tag of this operator's variant.
    pub fn variant_name(&self) -> (r: &'static str)
        ensures
            r@ == ir_tag(*self),
    {
        match self {
            IR::Slice { .. } => "SLICE",
            IR::Filter { .. } => "FILTER",
            IR::Scan { .. } => "SCAN",
            IR::DataFrameScan { .. } => "DF",
            IR::PlaceholderScan { .. } => "PLACEHOLDER",
            IR::SimpleProjection { .. } => "SIMPLE_PROJECTION",
            IR::Select { .. } => "SELECT",
            IR::Sort { .. } => "SORT",
            IR::Cache { .. } => "CACHE",
            IR::GroupBy { .. } => "GROUP_BY",
            IR::Join { .. } => "JOIN",
            IR::HStack { .. } => "H_STACK",
            IR::Distinct { .. } => "DISTINCT",
            IR::MapFunction { .. } => "MAP_FUNCTION",
            IR::Union { .. } => "UNION",
            IR::HConcat { .. } => "H_CONCAT",
            IR::ExtContext { .. } => "EXT_CONTEXT",
            IR::Sink { .. } => "SINK",
            IR::SinkMultiple { .. } => "SINK_MULTIPLE",
            IR::MergeSorted { .. } => "MERGE_SORTED",
            IR::Invalid => "INVALID",
        }
    }
}

} // verus!
