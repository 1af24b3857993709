use tapepy::context::Context;
use tapepy::expression_circuit::{circuit_from_expr, circuit_from_expr_with_context, ExprGenerator};
use tapepy::syntax::{BinaryOperator, Literal, PyExpr};
use tapepy::tape_language::circuit::Circuit;
use tapepy::typing::{infer_expression, infer_expression_in_context};
use tapepy::types::TypeExpr;

fn name(id: &str) -> PyExpr {
    PyExpr::Name(id.to_string())
}

fn int_lit(text: &str) -> PyExpr {
    PyExpr::Constant(Literal::Int(text.to_string()))
}

fn add(left: PyExpr, right: PyExpr) -> PyExpr {
    PyExpr::BinOp(Box::new(left), BinaryOperator::Add, Box::new(right))
}

#[test]
fn var_expression_is_identity_circuit() {
    let tree = infer_expression(&name("x")).expect("expected a derivation");
    let circuit = circuit_from_expr(&tree);

    assert!(matches!(circuit, Circuit::Id(_)));
}

#[test]
fn const_expression_is_generator_with_zero_inputs() {
    let tree = infer_expression(&int_lit("1")).expect("expected a derivation");
    let circuit = circuit_from_expr(&tree);

    match circuit {
        Circuit::Generator(ExprGenerator::Function {
            input_types,
            output_types,
            ..
        }) => {
            assert_eq!(input_types.len(), 0);
            assert_eq!(output_types.len(), 1);
        }
        _ => panic!("expected generator circuit for constant expression"),
    }
}

#[test]
fn binop_expression_builds_seq_with_binary_generator() {
    let tree = infer_expression(&add(name("x"), name("y"))).expect("expected a derivation");
    let circuit = circuit_from_expr(&tree);

    match circuit {
        Circuit::Sequence(inputs, gen) => {
            assert!(matches!(*inputs, Circuit::Product(_, _)));
            match *gen {
                Circuit::Generator(ExprGenerator::Function {
                    input_types,
                    output_types,
                    ..
                }) => {
                    assert_eq!(input_types.len(), 2);
                    assert_eq!(output_types.len(), 1);
                }
                _ => panic!("expected generator at end of binary op circuit"),
            }
        }
        _ => panic!("expected sequential circuit for binary op"),
    }
}

#[test]
fn wiring_with_context_uses_copy_for_repeated_variable() {
    let mut context = Context::new();
    context.set_var("x", TypeExpr::Int);
    let tree = infer_expression_in_context(&add(name("x"), name("x")), &context)
        .expect("expected a derivation");

    let circuit = circuit_from_expr_with_context(&tree, &context.entries());
    match circuit {
        Circuit::Sequence(wiring, _) => {
            assert_eq!(*wiring, Circuit::Copy(TypeExpr::Int));
        }
        _ => panic!("expected wiring followed by expression circuit"),
    }
}
