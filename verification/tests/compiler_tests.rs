use tapepy::cli::output::{yaml_string, OutputFormat};
use tapepy::command_typing::infer_command_from_suite;
use tapepy::compiler::{compile_program, CompileOptions};
use tapepy::expression_circuit::{generator_to_string, ExprGenerator};
use tapepy::syntax::{Literal, PyExpr, PyStmt};
use tapepy::tape_language::monomial_tape::MonomialTapeEdge;
use tapepy::tape_language::Monomial;
use tapepy::types::{TypeExpr, TypeVar};

#[test]
fn yaml_string_escapes_backslashes_and_quotes() {
    assert_eq!(yaml_string("a\"b\\c"), "\"a\\\"b\\\\c\"");
    assert_eq!(yaml_string(""), "\"\"");
    assert_eq!(yaml_string("plain"), "\"plain\"");
}

#[test]
fn output_format_names_dot() {
    assert_eq!(OutputFormat::Dot.as_str(), "dot");
}

#[test]
fn monomial_text_joins_sorts() {
    let m = Monomial::from_sorts(vec![TypeExpr::Int, TypeExpr::Var(TypeVar(3)), TypeExpr::Bool]);
    assert_eq!(m.to_text(), "Int * a3 * Bool");
    assert_eq!(Monomial::<TypeExpr>::one().to_text(), "1");
    assert_eq!(Monomial::atom(TypeExpr::Float).to_text(), "Float");
}

#[test]
fn edge_text_names_boxes() {
    let e: MonomialTapeEdge<TypeExpr, ExprGenerator> =
        MonomialTapeEdge::FromAddToMul(Monomial::from_sorts(vec![TypeExpr::Int, TypeExpr::Int]));
    assert_eq!(e.to_text(), "from-add-to-mul(Int * Int)");
    let g = ExprGenerator::predicate("eq".to_string(), vec![TypeExpr::Int, TypeExpr::Int], true);
    assert_eq!(generator_to_string(&g), "not eq");
    let split: MonomialTapeEdge<TypeExpr, ExprGenerator> = MonomialTapeEdge::TapeSplit;
    assert_eq!(split.to_text(), "split");
}

#[test]
fn compiling_an_assignment_gives_dot_text() {
    let stmts = vec![PyStmt::Assign {
        targets: vec![PyExpr::Name("x".to_string())],
        value: PyExpr::Constant(Literal::Int("1".to_string())),
    }];
    let tree = infer_command_from_suite(&stmts).expect("expected a derivation");
    let artifacts = compile_program(&tree, &CompileOptions { raw_tape: false })
        .expect("expected a drawing");
    assert!(artifacts.ir_dot.starts_with("digraph"));
    let raw = compile_program(&tree, &CompileOptions { raw_tape: true }).expect("expected a drawing");
    assert!(raw.ir_dot.contains("Int"));
}
