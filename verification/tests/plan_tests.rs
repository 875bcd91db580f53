use plan_ir::AExpr;
use plan_ir::Arena;
use plan_ir::ColumnDef;
use plan_ir::DataFrame;
use plan_ir::ExprIR;
use plan_ir::IR;
use plan_ir::IRPlan;
use plan_ir::Node;
use plan_ir::PlanError;
use plan_ir::ProjectionOptions;
use plan_ir::Schema;
use plan_ir::UnionOptions;

fn col(name: &str, dtype: &str) -> ColumnDef {
    ColumnDef { name: name.to_string(), dtype: dtype.to_string() }
}

fn schema_ab() -> Schema {
    Schema::new(vec![col("a", "int"), col("b", "str")])
}

fn schema_abc() -> Schema {
    Schema::new(vec![col("a", "int"), col("b", "str"), col("c", "int")])
}

fn projection_options() -> ProjectionOptions {
    ProjectionOptions { run_parallel: false, duplicate_check: true, should_broadcast: false }
}

/// Select over Filter over a concrete two-column dataset.
fn select_filter_plan() -> IRPlan {
    let mut exprs: Arena<AExpr> = Arena::new();
    let pred = ExprIR::new(exprs.add(AExpr::Column("a".to_string())));
    let sel = ExprIR::new(exprs.add(AExpr::Column("b".to_string())));

    let mut nodes: Arena<IR> = Arena::new();
    let scan = nodes.add(IR::DataFrameScan {
        df: DataFrame::new(schema_ab(), 4),
        schema: schema_ab(),
        output_schema: None,
    });
    let filter = nodes.add(IR::Filter { input: scan, predicate: pred });
    let select = nodes.add(IR::Select {
        input: filter,
        expr: vec![sel],
        schema: schema_ab(),
        options: projection_options(),
    });
    IRPlan::new(select, nodes, exprs)
}

#[test]
fn select_filter_to_template() {
    let plan = select_filter_plan();
    let template = plan.to_template();

    assert_eq!(template.lp_arena.len(), 3);
    match template.lp_arena.get(Node(0)) {
        IR::PlaceholderScan { schema, output_schema } => {
            assert_eq!(schema.len(), 2);
            assert_eq!(schema.columns[0].name, "a");
            assert_eq!(schema.columns[0].dtype, "int");
            assert_eq!(schema.columns[1].name, "b");
            assert_eq!(schema.columns[1].dtype, "str");
            assert!(output_schema.is_none());
        }
        other => panic!("expected a placeholder, got {}", other.variant_name()),
    }
    assert_eq!(template.lp_arena.get(Node(1)).variant_name(), "FILTER");
    assert_eq!(template.lp_arena.get(Node(2)).variant_name(), "SELECT");
    assert_eq!(template.lp_top, Node(2));
    // The expression arena is carried over unchanged.
    assert_eq!(template.expr_arena.len(), 2);
    match template.expr_arena.get(Node(0)) {
        AExpr::Column(name) => assert_eq!(name, "a"),
        _ => panic!("expected a column reference"),
    }
}

#[test]
fn select_filter_bind_round_trip() {
    let plan = select_filter_plan();
    let template = plan.to_template();

    let df = DataFrame::new(schema_ab(), 7);
    let bound = template.bind_to_df(df).expect("schemas match, so the bind succeeds");

    assert_eq!(bound.lp_arena.len(), 3);
    match bound.lp_arena.get(Node(0)) {
        IR::DataFrameScan { df, schema, output_schema } => {
            assert_eq!(df.height, 7);
            assert_eq!(df.schema.len(), 2);
            assert_eq!(schema.len(), 2);
            assert_eq!(schema.columns[0].name, "a");
            assert!(output_schema.is_none());
        }
        other => panic!("expected a dataset leaf, got {}", other.variant_name()),
    }
    assert_eq!(bound.lp_arena.get(Node(1)).variant_name(), "FILTER");
    assert_eq!(bound.lp_arena.get(Node(2)).variant_name(), "SELECT");
    match bound.lp_arena.get(Node(1)) {
        IR::Filter { input, .. } => assert_eq!(*input, Node(0)),
        _ => panic!("expected the filter"),
    }
    match bound.lp_arena.get(Node(2)) {
        IR::Select { input, expr, schema, .. } => {
            assert_eq!(*input, Node(1));
            assert_eq!(expr.len(), 1);
            assert_eq!(schema.len(), 2);
        }
        _ => panic!("expected the select"),
    }
}

#[test]
fn select_filter_bind_mismatch() {
    let plan = select_filter_plan();
    let template = plan.to_template();

    let df3 = DataFrame::new(schema_abc(), 2);
    match template.bind_to_df(df3) {
        Err(PlanError::SchemaMismatch { expected, got }) => {
            assert_eq!(expected, 2);
            assert_eq!(got, 3);
        }
        Err(PlanError::InvalidBindTarget) => panic!("wrong error kind"),
        Ok(_) => panic!("a mismatching bind must fail"),
    }
    // The template is untouched and can still be bound to matching data.
    let df2 = DataFrame::new(schema_ab(), 1);
    assert!(template.bind_to_df(df2).is_ok());
}

#[test]
fn join_keeps_input_order() {
    let mut nodes: Arena<IR> = Arena::new();
    let left = nodes.add(IR::DataFrameScan {
        df: DataFrame::new(schema_ab(), 1),
        schema: schema_ab(),
        output_schema: None,
    });
    let right = nodes.add(IR::Scan {
        sources: vec!["right.parquet".to_string()],
        file_schema: schema_abc(),
        predicate: None,
        output_schema: None,
    });
    let join = nodes.add(IR::Join {
        input_left: left,
        input_right: right,
        schema: schema_abc(),
        left_on: vec![],
        right_on: vec![],
        options: plan_ir::JoinOptionsIR {
            allow_parallel: true,
            force_parallel: false,
            how: plan_ir::JoinType::Inner,
        },
    });
    let plan = IRPlan::new(join, nodes, Arena::new());
    let template = plan.to_template();

    // Depth-first rebuild: left subtree first, then right, then the join.
    assert_eq!(template.lp_arena.get(Node(0)).variant_name(), "PLACEHOLDER");
    assert_eq!(template.lp_arena.get(Node(1)).variant_name(), "SCAN");
    match template.lp_arena.get(Node(2)) {
        IR::Join { input_left, input_right, options, .. } => {
            assert_eq!(*input_left, Node(0));
            assert_eq!(*input_right, Node(1));
            assert!(matches!(options.how, plan_ir::JoinType::Inner));
        }
        _ => panic!("expected the join"),
    }
}

#[test]
fn bare_scan_passes_through_unchanged() {
    let mut nodes: Arena<IR> = Arena::new();
    let scan = nodes.add(IR::Scan {
        sources: vec!["lineitem.parquet".to_string(), "orders.parquet".to_string()],
        file_schema: schema_ab(),
        predicate: None,
        output_schema: Some(schema_ab()),
    });
    let plan = IRPlan::new(scan, nodes, Arena::new());

    let template = plan.to_template();
    assert_eq!(template.lp_arena.len(), 1);
    match template.lp_arena.get(Node(0)) {
        IR::Scan { sources, file_schema, predicate, output_schema } => {
            assert_eq!(sources.len(), 2);
            assert_eq!(sources[0], "lineitem.parquet");
            assert_eq!(sources[1], "orders.parquet");
            assert_eq!(file_schema.len(), 2);
            assert!(predicate.is_none());
            assert_eq!(output_schema.as_ref().unwrap().len(), 2);
        }
        _ => panic!("a bare scan must stay a scan"),
    }

    // Binding a plan without placeholders succeeds whatever the data is.
    let bound = template.bind_to_df(DataFrame::new(schema_abc(), 9)).unwrap();
    assert_eq!(bound.lp_arena.len(), 1);
    assert_eq!(bound.lp_arena.get(Node(0)).variant_name(), "SCAN");
}

#[test]
fn union_binds_every_placeholder_to_the_same_data() {
    let mut nodes: Arena<IR> = Arena::new();
    let p0 = nodes.add(IR::PlaceholderScan { schema: schema_ab(), output_schema: None });
    let p1 = nodes.add(IR::PlaceholderScan { schema: schema_ab(), output_schema: None });
    let union = nodes.add(IR::Union {
        inputs: vec![p0, p1],
        options: UnionOptions { parallel: true, rechunk: false, maintain_order: true },
    });
    let template = IRPlan::new(union, nodes, Arena::new());

    let bound = template.bind_to_df(DataFrame::new(schema_ab(), 3)).unwrap();
    assert_eq!(bound.lp_arena.len(), 3);
    for i in 0..2 {
        match bound.lp_arena.get(Node(i)) {
            IR::DataFrameScan { df, schema, .. } => {
                assert_eq!(df.height, 3);
                assert_eq!(schema.len(), 2);
                assert_eq!(schema.columns[0].name, "a");
            }
            other => panic!("expected a dataset leaf, got {}", other.variant_name()),
        }
    }
    match bound.lp_arena.get(Node(2)) {
        IR::Union { inputs, .. } => {
            assert_eq!(inputs.len(), 2);
            assert_eq!(inputs[0], Node(0));
            assert_eq!(inputs[1], Node(1));
        }
        _ => panic!("expected the union"),
    }
}

#[test]
fn bind_to_non_dataset_node_is_rejected() {
    let mut nodes: Arena<IR> = Arena::new();
    let p0 = nodes.add(IR::PlaceholderScan { schema: schema_ab(), output_schema: None });
    let template = IRPlan::new(p0, nodes, Arena::new());

    let mut data_arena: Arena<IR> = Arena::new();
    let data_node = data_arena.add(IR::Scan {
        sources: vec![],
        file_schema: schema_ab(),
        predicate: None,
        output_schema: None,
    });
    match template.bind_data(data_node, &data_arena) {
        Err(PlanError::InvalidBindTarget) => {}
        _ => panic!("binding to a non-dataset node must be rejected"),
    }
}

#[test]
fn bind_without_placeholder_ignores_the_data_kind() {
    let mut nodes: Arena<IR> = Arena::new();
    let inv = nodes.add(IR::Invalid);
    let plan = IRPlan::new(inv, nodes, Arena::new());

    let mut data_arena: Arena<IR> = Arena::new();
    let data_node = data_arena.add(IR::Invalid);
    let bound = plan.bind_data(data_node, &data_arena).unwrap();
    assert_eq!(bound.lp_arena.len(), 1);
    assert_eq!(bound.lp_arena.get(Node(0)).variant_name(), "INVALID");
}

#[test]
fn empty_schema_binds_to_empty_dataset() {
    let mut nodes: Arena<IR> = Arena::new();
    let p0 = nodes.add(IR::PlaceholderScan {
        schema: Schema::new(vec![]),
        output_schema: None,
    });
    let template = IRPlan::new(p0, nodes, Arena::new());
    let bound = template.bind_to_df(DataFrame::new(Schema::new(vec![]), 0)).unwrap();
    assert_eq!(bound.lp_arena.get(Node(0)).variant_name(), "DF");
}

#[test]
fn cache_and_slice_payloads_survive_the_round_trip() {
    let mut nodes: Arena<IR> = Arena::new();
    let scan = nodes.add(IR::DataFrameScan {
        df: DataFrame::new(schema_ab(), 10),
        schema: schema_ab(),
        output_schema: None,
    });
    let cache = nodes.add(IR::Cache { input: scan, id: 41 });
    let slice = nodes.add(IR::Slice { input: cache, offset: -3, len: 8 });
    let plan = IRPlan::new(slice, nodes, Arena::new());

    let bound = plan.to_template().bind_to_df(DataFrame::new(schema_ab(), 2)).unwrap();
    match bound.lp_arena.get(Node(1)) {
        IR::Cache { input, id } => {
            assert_eq!(*input, Node(0));
            assert_eq!(*id, 41);
        }
        _ => panic!("expected the cache"),
    }
    match bound.lp_arena.get(Node(2)) {
        IR::Slice { input, offset, len } => {
            assert_eq!(*input, Node(1));
            assert_eq!(*offset, -3);
            assert_eq!(*len, 8);
        }
        _ => panic!("expected the slice"),
    }
}

#[test]
fn describe_lists_one_tag_per_node() {
    let plan = select_filter_plan();
    assert_eq!(plan.describe(), "DF\nFILTER\nSELECT\n");
    assert_eq!(plan.as_ref().describe(), "DF\nFILTER\nSELECT\n");
    assert_eq!(plan.to_template().describe(), "PLACEHOLDER\nFILTER\nSELECT\n");
}

#[test]
fn tree_format_indents_children() {
    let plan = select_filter_plan();
    assert_eq!(plan.describe_tree_format(), "SELECT\n  FILTER\n    DF\n");
    assert_eq!(
        plan.to_template().describe_tree_format(),
        "SELECT\n  FILTER\n    PLACEHOLDER\n"
    );
    assert_eq!(
        plan.as_ref().with_root(Node(1)).describe_tree_format(),
        "FILTER\n  DF\n"
    );
}

#[test]
fn root_and_with_root_follow_handles() {
    let plan = select_filter_plan();
    assert_eq!(plan.root().variant_name(), "SELECT");
    let view = plan.as_ref();
    assert_eq!(view.root().variant_name(), "SELECT");
    assert_eq!(view.with_root(Node(1)).root().variant_name(), "FILTER");
    assert_eq!(view.with_root(Node(0)).root().variant_name(), "DF");
}

#[test]
fn rich_payloads_survive_the_round_trip() {
    let mut exprs: Arena<AExpr> = Arena::new();
    let by = ExprIR::new(exprs.add(AExpr::Column("a".to_string())));

    let mut nodes: Arena<IR> = Arena::new();
    let scan = nodes.add(IR::DataFrameScan {
        df: DataFrame::new(schema_ab(), 5),
        schema: schema_ab(),
        output_schema: None,
    });
    let sort = nodes.add(IR::Sort {
        input: scan,
        by_column: vec![by],
        slice: Some((1, 3)),
        sort_options: plan_ir::SortMultipleOptions {
            descending: vec![true, false],
            nulls_last: vec![false, false],
            multithreaded: false,
            maintain_order: true,
        },
    });
    let distinct = nodes.add(IR::Distinct {
        input: sort,
        options: plan_ir::DistinctOptionsIR {
            subset: Some(vec!["a".to_string()]),
            maintain_order: false,
            keep_strategy: plan_ir::KeepStrategy::First,
        },
    });
    let hinted = nodes.add(IR::MapFunction {
        input: distinct,
        function: plan_ir::FunctionIR::Hint(plan_ir::HintIR::Sorted(vec![plan_ir::Sorted {
            column: "a".to_string(),
            descending: true,
            nulls_last: false,
        }])),
    });
    let plan = IRPlan::new(hinted, nodes, exprs);

    let bound = plan.to_template().bind_to_df(DataFrame::new(schema_ab(), 6)).unwrap();
    match bound.lp_arena.get(Node(1)) {
        IR::Sort { by_column, slice, sort_options, .. } => {
            assert_eq!(by_column.len(), 1);
            assert_eq!(by_column[0].node, Node(0));
            assert_eq!(*slice, Some((1, 3)));
            assert_eq!(sort_options.descending, vec![true, false]);
            assert!(sort_options.maintain_order);
        }
        _ => panic!("expected the sort"),
    }
    match bound.lp_arena.get(Node(2)) {
        IR::Distinct { options, .. } => {
            assert_eq!(options.subset.as_deref(), Some(&["a".to_string()][..]));
            assert!(matches!(options.keep_strategy, plan_ir::KeepStrategy::First));
        }
        _ => panic!("expected the distinct"),
    }
    match bound.lp_arena.get(Node(3)) {
        IR::MapFunction { function: plan_ir::FunctionIR::Hint(h), .. } => {
            assert_eq!(h.describe(), "sorted('a': { descending: true, nulls_last: false })");
        }
        _ => panic!("expected the hinted map"),
    }
}

#[test]
fn ext_context_keeps_primary_and_contexts_apart() {
    let mut nodes: Arena<IR> = Arena::new();
    let main = nodes.add(IR::DataFrameScan {
        df: DataFrame::new(schema_ab(), 1),
        schema: schema_ab(),
        output_schema: None,
    });
    let ctx = nodes.add(IR::Scan {
        sources: vec!["ctx.parquet".to_string()],
        file_schema: schema_abc(),
        predicate: None,
        output_schema: None,
    });
    let ext = nodes.add(IR::ExtContext { input: main, contexts: vec![ctx], schema: schema_ab() });
    let plan = IRPlan::new(ext, nodes, Arena::new());

    let template = plan.to_template();
    assert_eq!(template.describe_tree_format(), "EXT_CONTEXT\n  PLACEHOLDER\n  SCAN\n");
    match template.lp_arena.get(Node(2)) {
        IR::ExtContext { input, contexts, .. } => {
            assert_eq!(*input, Node(0));
            assert_eq!(contexts.len(), 1);
            assert_eq!(contexts[0], Node(1));
        }
        _ => panic!("expected the context node"),
    }
}

#[test]
fn arena_hands_out_dense_handles() {
    let mut arena: Arena<u64> = Arena::new();
    assert_eq!(arena.len(), 0);
    let n0 = arena.add(10);
    let n1 = arena.add(20);
    assert_eq!(n0, Node(0));
    assert_eq!(n1, Node(1));
    assert_eq!(*arena.get(n0), 10);
    assert_eq!(*arena.get(n1), 20);
    assert_eq!(arena.len(), 2);
}
