use tapepy::command_typing::{infer_command, infer_command_from_stmt, infer_command_from_suite, CommandError};
use tapepy::context::Context;
use tapepy::syntax::{BooleanOperator, Literal, PyExpr, PyStmt, UnaryOperator};
use tapepy::typing::{infer_expression, infer_predicate, TypeError};
use tapepy::types::TypeExpr;

fn name(id: &str) -> PyExpr {
    PyExpr::Name(id.to_string())
}

fn boolean(value: bool) -> PyExpr {
    PyExpr::Constant(Literal::Bool(value))
}

fn int_lit(text: &str) -> PyExpr {
    PyExpr::Constant(Literal::Int(text.to_string()))
}

#[test]
fn negated_variable_types_as_bool() {
    let expr = PyExpr::UnaryOp(UnaryOperator::Not, Box::new(name("x")));
    let tree = infer_expression(&expr).expect("a plain expression types");
    assert!(matches!(tree.judgment().ty(), TypeExpr::Bool));
}

#[test]
fn boolean_operation_over_variables_types_as_bool() {
    let expr = PyExpr::BoolOp(BooleanOperator::And, vec![name("a"), boolean(true), name("b")]);
    let tree = infer_expression(&expr).expect("a plain expression types");
    assert!(matches!(tree.judgment().ty(), TypeExpr::Bool));
}

#[test]
fn keyword_arguments_are_refused() {
    let expr = PyExpr::Call { func: Box::new(name("f")), args: vec![name("x")], has_keywords: true };
    assert!(matches!(infer_expression(&expr), Err(TypeError::KeywordArguments)));
}

#[test]
fn plain_predicate_types() {
    let expr = PyExpr::BoolOp(BooleanOperator::Or, vec![boolean(true), boolean(false)]);
    assert!(infer_predicate(&expr).is_ok());
}

#[test]
fn assignment_to_two_targets_is_refused() {
    let stmt = PyStmt::Assign { targets: vec![name("x"), name("y")], value: int_lit("1") };
    let context = Context::new();
    assert!(matches!(infer_command(&stmt, &context), Err(CommandError::MultipleTargets)));
}

#[test]
fn assignment_to_a_non_name_is_refused() {
    let stmt = PyStmt::Assign { targets: vec![int_lit("3")], value: int_lit("1") };
    let context = Context::new();
    assert!(matches!(infer_command(&stmt, &context), Err(CommandError::TargetNotName)));
}

#[test]
fn assignment_to_an_unbound_name_is_refused() {
    let stmt = PyStmt::Assign { targets: vec![name("y")], value: int_lit("1") };
    let context = Context::new();
    match infer_command(&stmt, &context) {
        Err(CommandError::TargetNotInContext(n)) => assert_eq!(n, "y"),
        _ => panic!("expected TargetNotInContext"),
    }
}

#[test]
fn closed_conditional_types() {
    let stmt = PyStmt::If { test: boolean(true), body: vec![PyStmt::Pass], orelse: vec![PyStmt::Raise] };
    assert!(infer_command_from_stmt(&stmt).is_ok());
    let looping = PyStmt::While { test: boolean(false), body: vec![PyStmt::Pass, PyStmt::Pass] };
    assert!(infer_command_from_suite(&vec![looping, PyStmt::Raise]).is_ok());
}
