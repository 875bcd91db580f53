use plan_ir::HintIR;
use plan_ir::Sorted;

fn sorted(column: &str, descending: bool, nulls_last: bool) -> Sorted {
    Sorted { column: column.to_string(), descending, nulls_last }
}

#[test]
fn sorted_entry_renders_one_line() {
    let s = sorted("a", true, false);
    assert_eq!(s.describe(), "'a': { descending: true, nulls_last: false }");
}

#[test]
fn hint_renders_entries_joined_with_commas() {
    let h = HintIR::Sorted(vec![
        sorted("a", false, false),
        sorted("b", true, true),
    ]);
    assert_eq!(
        h.describe(),
        "sorted('a': { descending: false, nulls_last: false }, 'b': { descending: true, nulls_last: true })"
    );
}

#[test]
fn empty_hint_renders_empty_parentheses() {
    let h = HintIR::Sorted(vec![]);
    assert_eq!(h.describe(), "sorted()");
}

#[test]
fn duplicate_keeps_every_entry() {
    let h = HintIR::Sorted(vec![sorted("k", true, false)]);
    let copy = h.duplicate();
    let HintIR::Sorted(entries) = copy;
    assert_eq!(entries.len(), 1);
    assert_eq!(entries[0].column, "k");
    assert!(entries[0].descending);
    assert!(!entries[0].nulls_last);
}
