use tapepy::expression_circuit::ExprGenerator;
use tapepy::predicate_tape::{tape_from_predicate, tape_from_predicate_with_negation};
use tapepy::syntax::{
    BooleanOperator, ComparisonOperator, Literal, PyExpr, UnaryOperator,
};
use tapepy::tape_language::tape::Tape;
use tapepy::tape_language::{Circuit, Monomial};
use tapepy::types::TypeExpr;
use tapepy::typing::infer_predicate;

fn name(id: &str) -> PyExpr {
    PyExpr::Name(id.to_string())
}

fn int_lit(text: &str) -> PyExpr {
    PyExpr::Constant(Literal::Int(text.to_string()))
}

fn boolean(value: bool) -> PyExpr {
    PyExpr::Constant(Literal::Bool(value))
}

fn compare(left: PyExpr, op: ComparisonOperator, right: PyExpr) -> PyExpr {
    PyExpr::Compare(Box::new(left), vec![op], vec![right])
}

fn not(expr: PyExpr) -> PyExpr {
    PyExpr::UnaryOp(UnaryOperator::Not, Box::new(expr))
}

fn and(values: Vec<PyExpr>) -> PyExpr {
    PyExpr::BoolOp(BooleanOperator::And, values)
}

fn or(values: Vec<PyExpr>) -> PyExpr {
    PyExpr::BoolOp(BooleanOperator::Or, values)
}

#[test]
fn predicate_true_is_discard() {
    let tree = infer_predicate(&boolean(true)).expect("expected a derivation");
    let tape = tape_from_predicate(&tree);

    assert!(matches!(tape, Tape::Discard(_)));
}

#[test]
fn predicate_false_creates_after_discard() {
    let tree = infer_predicate(&boolean(false)).expect("expected a derivation");
    let tape = tape_from_predicate(&tree);

    match tape {
        Tape::Sequence(left, right) => {
            assert!(matches!(*left, Tape::Discard(_)));
            assert!(matches!(*right, Tape::Create(Monomial::One)));
        }
        _ => panic!("expected discard then create for False"),
    }
}

#[test]
fn not_comparison_sets_negated_flag() {
    let expr = not(compare(name("x"), ComparisonOperator::Eq, name("y")));
    let tree = infer_predicate(&expr).expect("expected a derivation");
    let tape = tape_from_predicate(&tree);

    match tape {
        Tape::EmbedCircuit(circuit) => match *circuit {
            Circuit::Sequence(_, op) => match *op {
                Circuit::Generator(ExprGenerator::Predicate { negated, .. }) => {
                    assert!(negated);
                }
                _ => panic!("expected predicate generator"),
            },
            _ => panic!("expected seq in embedded relation circuit"),
        },
        _ => panic!("expected embedded circuit for negated relation"),
    }
}

#[test]
fn and_predicate_uses_copy_then_product() {
    let expr = and(vec![
        compare(name("x"), ComparisonOperator::Gt, int_lit("0")),
        compare(name("y"), ComparisonOperator::Gt, int_lit("0")),
    ]);
    let tree = infer_predicate(&expr).expect("expected a derivation");
    let tape = tape_from_predicate(&tree);

    match tape {
        Tape::Sequence(embed, prod) => {
            match *embed {
                Tape::EmbedCircuit(circuit) => {
                    let context_entries = tree.judgment().context().entries();
                    let types: Vec<TypeExpr> =
                        context_entries.iter().map(|(_, ty)| ty.clone()).collect();
                    let expected = Circuit::copy_wires(types);
                    assert_eq!(*circuit, expected);
                }
                _ => panic!("expected embedded circuit copy for and predicate"),
            }
            assert!(matches!(*prod, Tape::Product(_, _)));
        }
        _ => panic!("expected embed then product for and predicate"),
    }
}

#[test]
fn or_predicate_splits_sums_then_merges() {
    let expr = or(vec![
        compare(name("x"), ComparisonOperator::Gt, int_lit("0")),
        compare(name("y"), ComparisonOperator::Gt, int_lit("0")),
    ]);
    let tree = infer_predicate(&expr).expect("expected a derivation");
    let tape = tape_from_predicate(&tree);

    match tape {
        Tape::Sequence(merged, tail) => {
            assert!(matches!(*tail, Tape::Merge(Monomial::One)));
            match *merged {
                Tape::Sequence(split, sum) => {
                    assert!(matches!(*split, Tape::Split(_)));
                    assert!(matches!(*sum, Tape::Sum(_, _)));
                }
                _ => panic!("expected split then sum before merge"),
            }
        }
        _ => panic!("expected merged seq for or predicate"),
    }
}

#[test]
fn compare_uses_predicate_generator_with_unit_output() {
    let expr = compare(name("x"), ComparisonOperator::Eq, name("y"));
    let tree = infer_predicate(&expr).expect("expected a derivation");
    let tape = tape_from_predicate(&tree);

    match tape {
        Tape::EmbedCircuit(circuit) => match *circuit {
            Circuit::Sequence(_, op) => match *op {
                Circuit::Generator(ExprGenerator::Predicate { .. }) => {}
                _ => panic!("expected predicate generator"),
            },
            _ => panic!("expected seq in embedded relation circuit"),
        },
        _ => panic!("expected embedded circuit for compare"),
    }
}

#[test]
fn negated_relation_sets_negated_flag() {
    let expr = not(compare(name("x"), ComparisonOperator::Eq, name("y")));
    let tree = infer_predicate(&expr).expect("expected a derivation");
    let tape = tape_from_predicate(&tree);

    match tape {
        Tape::EmbedCircuit(circuit) => match *circuit {
            Circuit::Sequence(_, op) => match *op {
                Circuit::Generator(ExprGenerator::Predicate { negated, .. }) => {
                    assert!(negated);
                }
                _ => panic!("expected predicate generator"),
            },
            _ => panic!("expected seq in embedded relation circuit"),
        },
        _ => panic!("expected embedded circuit for negated relation"),
    }
}

#[test]
fn predicate_call_uses_predicate_generator() {
    let expr = PyExpr::Call {
        func: Box::new(name("bool")),
        args: vec![name("x")],
        has_keywords: false,
    };
    let tree = infer_predicate(&expr).expect("expected a derivation");
    let tape = tape_from_predicate(&tree);

    match tape {
        Tape::EmbedCircuit(circuit) => match *circuit {
            Circuit::Sequence(_, op) => match *op {
                Circuit::Generator(ExprGenerator::Predicate { name, .. }) => {
                    assert_eq!(name, "bool");
                }
                _ => panic!("expected predicate generator"),
            },
            _ => panic!("expected seq in embedded relation circuit"),
        },
        _ => panic!("expected embedded circuit for predicate call"),
    }
}

#[test]
fn complex_predicate_combination_builds_nested_tape() {
    let expr = or(vec![
        and(vec![
            compare(name("x"), ComparisonOperator::Gt, int_lit("0")),
            compare(name("y"), ComparisonOperator::Gt, int_lit("0")),
        ]),
        not(compare(name("z"), ComparisonOperator::Eq, int_lit("0"))),
    ]);
    let tree = infer_predicate(&expr).expect("expected a derivation");
    let tape = tape_from_predicate(&tree);

    match tape {
        Tape::Sequence(merged, tail) => {
            assert!(matches!(*tail, Tape::Merge(Monomial::One)));
            match *merged {
                Tape::Sequence(split, sum) => {
                    assert!(matches!(*split, Tape::Split(_)));
                    assert!(matches!(*sum, Tape::Sum(_, _)));
                }
                _ => panic!("expected split then sum before merge"),
            }
        }
        _ => panic!("expected merged seq for complex predicate"),
    }
}

#[test]
fn negated_conjunction_splits_like_a_disjunction() {
    let pred = and(vec![
        compare(name("x"), ComparisonOperator::Gt, int_lit("0")),
        compare(name("y"), ComparisonOperator::Lt, int_lit("1")),
    ]);
    let tree = infer_predicate(&pred).expect("expected a derivation");
    let negated = tape_from_predicate_with_negation(&tree, true);
    match negated {
        Tape::Sequence(head, tail) => {
            assert!(matches!(*tail, Tape::Merge(Monomial::One)));
            match *head {
                Tape::Sequence(split, sum) => {
                    assert!(matches!(*split, Tape::Split(_)));
                    match *sum {
                        Tape::Sum(left, right) => {
                            let first = tape_from_predicate_with_negation(&tree.children()[0], true);
                            let second = tape_from_predicate_with_negation(&tree.children()[1], true);
                            assert_eq!(*left, first);
                            assert_eq!(*right, second);
                        }
                        _ => panic!("expected a sum of the negated operands"),
                    }
                }
                _ => panic!("expected split then sum"),
            }
        }
        _ => panic!("expected a merge after the branches"),
    }
    let plain = tape_from_predicate(&tree);
    assert!(matches!(plain, Tape::Sequence(_, _)));
    assert_ne!(plain, tape_from_predicate_with_negation(&tree, true));
}
