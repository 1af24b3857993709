use tapepy::command_dot::escape_dot_label;
use tapepy::command_typing::infer_command_from_suite;
use tapepy::syntax::{BinaryOperator, Literal, PyExpr, PyStmt};
use tapepy::typing::{indentation, infer_expression, ContextSnapshot};
use tapepy::types::TypeExpr;

fn name(id: &str) -> PyExpr {
    PyExpr::Name(id.to_string())
}

fn int_lit(text: &str) -> PyExpr {
    PyExpr::Constant(Literal::Int(text.to_string()))
}

#[test]
fn context_snapshot_text_lists_entries() {
    let empty = ContextSnapshot::new(vec![]);
    assert_eq!(empty.to_text(), "Context");
    let snapshot = ContextSnapshot::new(vec![
        ("x".to_string(), TypeExpr::Int),
        ("y".to_string(), TypeExpr::Bool),
    ]);
    assert_eq!(snapshot.to_text(), "Context[x: Int, y: Bool]");
}

#[test]
fn variable_tree_is_one_line() {
    let tree = infer_expression(&name("x")).expect("expected a derivation");
    assert_eq!(tree.fmt_with_indent(0), "[Var] Context[x: a0] |- x : a0\n");
    assert_eq!(tree.fmt_with_indent(2), "    [Var] Context[x: a0] |- x : a0\n");
}

#[test]
fn children_are_indented_below_their_parent() {
    let expr = PyExpr::BinOp(Box::new(name("x")), BinaryOperator::Add, Box::new(int_lit("1")));
    let tree = infer_expression(&expr).expect("expected a derivation");
    let text = tree.fmt_with_indent(0);
    let lines: Vec<&str> = text.lines().collect();
    assert_eq!(lines.len(), 3);
    assert!(lines[0].starts_with("[BinOp] Context[x: a0] |- (x + 1) : "));
    assert_eq!(lines[1], "  [Var] Context[x: a0] |- x : a0");
    assert!(lines[2].starts_with("  [Const] Context[x: a0] |- 1 : "));
    assert!(text.ends_with('\n'));
}

#[test]
fn command_tree_text_nests_expression_trees() {
    let skip = infer_command_from_suite(&vec![PyStmt::Pass]).expect("expected a derivation");
    assert_eq!(skip.fmt_with_indent(0), "[Skip] Context |- skip\n");

    let assign = PyStmt::Assign { targets: vec![name("x")], value: int_lit("1") };
    let tree = infer_command_from_suite(&vec![assign]).expect("expected a derivation");
    let text = tree.fmt_with_indent(0);
    let lines: Vec<&str> = text.lines().collect();
    assert!(lines[0].starts_with("[Assign] "));
    assert!(lines.len() >= 2);
    assert!(lines[1].starts_with("  [Const] "));
}

#[test]
fn indentation_is_two_spaces_per_level() {
    assert_eq!(indentation(0), "");
    assert_eq!(indentation(3), "      ");
}

#[test]
fn dot_labels_escape_record_characters() {
    assert_eq!(escape_dot_label("plain"), "plain");
    assert_eq!(escape_dot_label("a|b{c}"), "a\\|b\\{c\\}");
    assert_eq!(escape_dot_label("<\"\\>"), "\\<\\\"\\\\\\>");
}
