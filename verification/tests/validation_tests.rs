use tapepy::expression_circuit::ExprGenerator;
use tapepy::tape_language::tape::Tape;
use tapepy::tape_language::text::format_tape_tree;
use tapepy::tape_language::Monomial;
use tapepy::types::TypeExpr;

fn id(sort: TypeExpr) -> Tape<TypeExpr, ExprGenerator> {
    Tape::Id(Monomial::atom(sort))
}

#[test]
fn validation_reports_the_interfaces_that_do_not_meet() {
    let left = id(TypeExpr::Int);
    let right = id(TypeExpr::Bool);
    let tape = Tape::Sequence(Box::new(id(TypeExpr::Int)), Box::new(id(TypeExpr::Bool)));
    let err = tape.validate().expect_err("interfaces differ");
    assert!(err.path.is_empty());
    assert_eq!(err.left_out, Some(vec![Monomial::atom(TypeExpr::Int)]));
    assert_eq!(err.right_in, Some(vec![Monomial::atom(TypeExpr::Bool)]));
    assert_eq!(err.left_tape, Some(format_tape_tree(&left, 0)));
    assert_eq!(err.right_tape, Some(format_tape_tree(&right, 0)));
    assert_eq!(err.full_tape, format_tape_tree(&tape, 0));
}

#[test]
fn validation_reports_the_path_to_the_failure() {
    let bad = Tape::Sequence(Box::new(id(TypeExpr::Int)), Box::new(id(TypeExpr::Bool)));
    let tape = Tape::Sum(Box::new(id(TypeExpr::Int)), Box::new(bad));
    let err = tape.validate().expect_err("inner sequence is ill typed");
    assert_eq!(err.path, vec!["Sum.right".to_string()]);
    assert!(err.full_tape.starts_with("Seq"));
}

#[test]
fn validation_accepts_a_well_typed_tape() {
    let tape = Tape::Sequence(Box::new(id(TypeExpr::Int)), Box::new(id(TypeExpr::Int)));
    assert!(tape.validate().is_ok());
}
