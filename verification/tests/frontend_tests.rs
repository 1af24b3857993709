use tapepy::command_typing::CommandError;
use tapepy::compiler::CompilerFrontend;
use tapepy::frontends::python::{FrontendError, PythonCompiler};
use tapepy::types::{TypeExpr, TypeVar};

#[test]
fn python_free_variables_are_numbered_in_order_of_first_use() {
    let tree = PythonCompiler
        .compile("<test>", "if y > x:\n  pass\nelse:\n  pass\n")
        .expect("typed program");
    let entries = tree.judgment().context().entries().to_vec();
    assert_eq!(
        entries,
        vec![
            ("x".to_string(), TypeExpr::Var(TypeVar(1))),
            ("y".to_string(), TypeExpr::Var(TypeVar(0))),
        ]
    );
}

#[test]
fn python_pass_types_with_empty_context() {
    let tree = PythonCompiler.compile("<test>", "pass\n").expect("typed program");
    assert!(tree.judgment().context().entries().is_empty());
    assert_eq!(tree.judgment().command(), "skip");
}

#[test]
fn python_conditional_binds_compared_variable_before_branch_targets() {
    let tree = PythonCompiler
        .compile("<test>", "if x > 0:\n  y = 1\nelse:\n  y = 2\n")
        .expect("typed program");
    let entries = tree.judgment().context().entries().to_vec();
    assert_eq!(
        entries,
        vec![
            ("x".to_string(), TypeExpr::Var(TypeVar(0))),
            ("y".to_string(), TypeExpr::Var(TypeVar(1))),
        ]
    );
}

#[test]
fn python_syntax_error_is_a_parse_error() {
    match PythonCompiler.compile("<test>", "x = = 1\n") {
        Err(FrontendError::Parse(message)) => assert!(!message.is_empty()),
        other => panic!("expected a parse error, got {:?}", other),
    }
}

#[test]
fn python_expression_statement_is_a_typing_error() {
    match PythonCompiler.compile("<test>", "1 + 2\n") {
        Err(FrontendError::Typing(CommandError::ExpressionStatement(_))) => {}
        other => panic!("expected an expression statement error, got {:?}", other),
    }
}
