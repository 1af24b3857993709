use tapepy::command_tape::tape_from_command;
use tapepy::command_typing::{infer_command_from_suite, CommandChild, CommandDerivationTree};
use tapepy::expression_circuit::ExprGenerator;
use tapepy::syntax::{ComparisonOperator, Literal, PyExpr, PyStmt};
use tapepy::tape_language::circuit::Circuit;
use tapepy::tape_language::tape::Tape;
use tapepy::tape_language::Monomial;
use tapepy::types::TypeExpr;

fn infer_tape(stmts: Vec<PyStmt>) -> (CommandDerivationTree, Tape<TypeExpr, ExprGenerator>) {
    let tree = infer_command_from_suite(&stmts).expect("expected a derivation");
    let tape = tape_from_command(&tree).expect("expected a tape");
    (tree, tape)
}

fn context_monomial(tree: &CommandDerivationTree) -> Monomial<TypeExpr> {
    Monomial::from_sorts(
        tree.judgment()
            .context()
            .entries()
            .iter()
            .map(|(_, ty)| ty.clone())
            .collect(),
    )
}

#[test]
fn skip_is_id_tape() {
    let (tree, tape) = infer_tape(vec![PyStmt::Pass]);
    let expected = context_monomial(&tree);

    match tape {
        Tape::Id(mono) => assert_eq!(mono, expected),
        _ => panic!("expected id tape for pass"),
    }
}

#[test]
fn abort_is_discard_tape() {
    let (tree, tape) = infer_tape(vec![PyStmt::Raise]);
    let expected = context_monomial(&tree);

    match tape {
        Tape::Discard(mono) => assert_eq!(mono, expected),
        _ => panic!("expected discard tape for raise"),
    }
}

#[test]
fn assign_is_embedded_seq_circuit() {
    let (tree, tape) = infer_tape(vec![PyStmt::Assign {
        targets: vec![PyExpr::Name("x".to_string())],
        value: PyExpr::Constant(Literal::Int("1".to_string())),
    }]);
    let context_entries = tree.judgment().context().entries();
    assert_eq!(context_entries.len(), 1);
    let lhs_ty = context_entries[0].1.clone();

    match tape {
        Tape::EmbedCircuit(circuit) => match *circuit {
            Circuit::Sequence(split, updated) => {
                assert_eq!(*split, Circuit::Id(lhs_ty.clone()));
                match *updated {
                    Circuit::Sequence(wiring, expr) => {
                        assert_eq!(*wiring, Circuit::Discard(lhs_ty.clone()));
                        match *expr {
                            Circuit::Generator(ExprGenerator::Function {
                                name,
                                input_types,
                                output_types,
                            }) => {
                                assert_eq!(name, "1");
                                assert!(input_types.is_empty());
                                assert_eq!(output_types, vec![lhs_ty.clone()]);
                            }
                            _ => panic!("expected constant generator in assignment"),
                        }
                    }
                    _ => panic!("expected seq for updated circuit"),
                }
            }
            _ => panic!("expected seq circuit for assignment"),
        },
        _ => panic!("expected embedded circuit for assignment"),
    }
}

fn assign(name: &str, value: &str) -> PyStmt {
    PyStmt::Assign {
        targets: vec![PyExpr::Name(name.to_string())],
        value: PyExpr::Constant(Literal::Int(value.to_string())),
    }
}

fn expect_constant(gen: Circuit<TypeExpr, ExprGenerator>, expected_name: &str) {
    match gen {
        Circuit::Generator(ExprGenerator::Function {
            name,
            input_types,
            output_types,
        }) => {
            assert_eq!(name, expected_name);
            assert!(input_types.is_empty());
            assert_eq!(output_types, vec![TypeExpr::Int]);
        }
        _ => panic!("expected constant generator in assignment"),
    }
}

#[test]
fn seq_of_assigns_embeds_seq_circuit() {
    let (tree, tape) = infer_tape(vec![assign("x", "1"), assign("y", "2")]);
    let mut iter = tree.children().iter().filter_map(|child| match child {
        CommandChild::Command(cmd) => Some(cmd),
        _ => None,
    });
    let left_cmd = iter.next().expect("sequence expects left command");
    let right_cmd = iter.next().expect("sequence expects right command");

    let left_entries = left_cmd.judgment().context().entries();
    let right_entries = right_cmd.judgment().context().entries();
    assert_eq!(left_entries.len(), 2);
    assert_eq!(right_entries.len(), 2);
    let x_ty = left_entries[0].1.clone();
    let y_ty_left = left_entries[1].1.clone();
    let y_ty_right = right_entries[1].1.clone();

    match tape {
        Tape::EmbedCircuit(circuit) => match *circuit {
            Circuit::Sequence(left, right) => {
                match *left {
                    Circuit::Sequence(split, updated) => {
                        assert_eq!(
                            *split,
                            Circuit::product(
                                Circuit::Id(x_ty.clone()),
                                Circuit::Copy(y_ty_left.clone())
                            )
                        );
                        match *updated {
                            Circuit::Product(expr, tail) => {
                                assert_eq!(*tail, Circuit::Id(y_ty_left.clone()));
                                match *expr {
                                    Circuit::Sequence(wiring, gen) => {
                                        let expected_wiring = Circuit::product(
                                            Circuit::Discard(x_ty.clone()),
                                            Circuit::Discard(y_ty_left.clone()),
                                        );
                                        assert_eq!(*wiring, expected_wiring);
                                        expect_constant(*gen, "1");
                                    }
                                    _ => panic!("expected seq for expression circuit"),
                                }
                            }
                            _ => panic!("expected product for updated circuit"),
                        }
                    }
                    _ => panic!("expected seq circuit for assignment"),
                }

                match *right {
                    Circuit::Sequence(split, updated) => {
                        assert_eq!(
                            *split,
                            Circuit::product(
                                Circuit::Copy(x_ty.clone()),
                                Circuit::Id(y_ty_right.clone())
                            )
                        );
                        match *updated {
                            Circuit::Product(head, expr) => {
                                assert_eq!(*head, Circuit::Id(x_ty.clone()));
                                match *expr {
                                    Circuit::Sequence(wiring, gen) => {
                                        let expected_wiring = Circuit::product(
                                            Circuit::Discard(x_ty.clone()),
                                            Circuit::Discard(y_ty_right.clone()),
                                        );
                                        assert_eq!(*wiring, expected_wiring);
                                        expect_constant(*gen, "2");
                                    }
                                    _ => panic!("expected seq for expression circuit"),
                                }
                            }
                            _ => panic!("expected product for updated circuit"),
                        }
                    }
                    _ => panic!("expected seq circuit for assignment"),
                }
            }
            _ => panic!("expected seq circuit for command sequence"),
        },
        _ => panic!("expected embedded circuit for command sequence"),
    }
}

#[test]
fn conditional_binds_compared_variable_and_wraps_branches_in_copy_and_join() {
    let test = PyExpr::Compare(
        Box::new(PyExpr::Name("x".to_string())),
        vec![ComparisonOperator::Gt],
        vec![PyExpr::Constant(Literal::Int("0".to_string()))],
    );
    let (tree, tape) = infer_tape(vec![PyStmt::If {
        test,
        body: vec![assign("y", "1")],
        orelse: vec![assign("y", "2")],
    }]);
    let context_entries = tree.judgment().context().entries();
    let names: Vec<String> = context_entries.iter().map(|(name, _)| name.clone()).collect();
    assert_eq!(names, vec!["x".to_string(), "y".to_string()]);
    let types: Vec<TypeExpr> = context_entries.iter().map(|(_, ty)| ty.clone()).collect();

    match tape {
        Tape::Sequence(copy, tail) => {
            match *copy {
                Tape::EmbedCircuit(circuit) => assert_eq!(*circuit, Circuit::copy_wires(types.clone())),
                _ => panic!("expected embedded copy circuit for if"),
            }
            match *tail {
                Tape::Sequence(branches, join) => {
                    assert!(matches!(*branches, Tape::Sum(_, _)));
                    match *join {
                        Tape::EmbedCircuit(circuit) => assert_eq!(*circuit, Circuit::join_wires(types)),
                        _ => panic!("expected embedded join circuit for if"),
                    }
                }
                _ => panic!("expected seq of branches and join"),
            }
        }
        _ => panic!("expected outer seq with copy for if"),
    }
}
