//! An arena-allocated intermediate representation (IR) of logical query
//! plans, together with two verified structural transforms: turning a
//! materialized plan into a reusable template (concrete data sources are
//! replaced by schema-only placeholders), and binding such a template back
//! to concrete data while validating schema compatibility.

mod arena;
mod error;
mod ewm;
mod expr;
mod fmt;
mod functions;
mod ir;
mod laws;
mod options;
mod plan;
mod schema;
mod transform;
mod tree;
mod util;

pub use arena::Arena;
pub use arena::Node;
pub use error::PlanError;
pub use ewm::EwmMeanState;
pub use ewm::n_somes;
pub use expr::AExpr;
pub use expr::ExprIR;
pub use expr::copy_expr_arena;
pub use fmt::indent_text;
pub use fmt::node_line;
pub use fmt::tree_fmt;
pub use fmt::trees_fmt;
pub use functions::FunctionIR;
pub use functions::FunctionIRV;
pub use functions::HintIR;
pub use functions::HintIRV;
pub use functions::Sorted;
pub use functions::bool_text;
pub use functions::hint_items_text;
pub use functions::hint_text;
pub use functions::sorted_text;
pub use ir::IR;
pub use ir::exprs_ok;
pub use ir::ir_exprs_ok;
pub use ir::ir_tag;
pub use ir::wf_arena;
pub use ir::wf_ir;
pub use laws::all_placeholder_cols;
pub use laws::all_placeholder_cols_all;
pub use laws::all_scan_cols;
pub use laws::all_scan_cols_all;
pub use laws::children_of;
pub use laws::lemma_bind_counts;
pub use laws::lemma_bind_counts_all;
pub use laws::lemma_bind_invalid_target;
pub use laws::lemma_bind_invalid_target_all;
pub use laws::lemma_bind_leaf;
pub use laws::lemma_bind_mismatch;
pub use laws::lemma_bind_mismatch_all;
pub use laws::lemma_bind_ok_iff;
pub use laws::lemma_bind_ok_iff_all;
pub use laws::lemma_bind_placeholder;
pub use laws::lemma_bind_topology;
pub use laws::lemma_no_placeholder_cols;
pub use laws::lemma_no_placeholder_cols_all;
pub use laws::lemma_round_trip;
pub use laws::lemma_round_trip_all;
pub use laws::lemma_template_cols;
pub use laws::lemma_template_cols_all;
pub use laws::lemma_template_counts;
pub use laws::lemma_template_counts_all;
pub use laws::lemma_template_leaf;
pub use laws::lemma_template_topology;
pub use laws::n_placeholders;
pub use laws::n_placeholders_all;
pub use laws::n_scans;
pub use laws::n_scans_all;
pub use laws::no_placeholder;
pub use laws::no_placeholder_all;
pub use laws::subst_scans;
pub use laws::subst_scans_all;
pub use laws::tree_tag;
pub use options::DistinctOptionsIR;
pub use options::DistinctOptionsV;
pub use options::GroupbyOptions;
pub use options::HConcatOptions;
pub use options::JoinOptionsIR;
pub use options::JoinType;
pub use options::KeepStrategy;
pub use options::ProjectionOptions;
pub use options::SinkTypeIR;
pub use options::SortMultipleOptions;
pub use options::SortMultipleOptionsV;
pub use options::UnionOptions;
pub use plan::IRPlan;
pub use plan::IRPlanRef;
pub use plan::describe_lines;
pub use plan::df_scan_tree;
pub use schema::ColumnDef;
pub use schema::DataFrame;
pub use schema::DataFrameV;
pub use schema::Schema;
pub use tree::PlanTree;
pub use tree::bind_tree;
pub use tree::bind_trees;
pub use tree::child_tree;
pub use tree::child_trees;
pub use tree::template_tree;
pub use tree::template_trees;
pub use tree::tree_of;
