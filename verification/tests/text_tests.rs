use tapepy::expression_circuit::ExprGenerator;
use tapepy::tape_language::circuit::Circuit;
use tapepy::tape_language::monomial_tape::{MonomialHyperNode, TensorKind};
use tapepy::tape_language::tape::Tape;
use tapepy::tape_language::text::{format_circuit_tree, format_monomials, format_sorts, format_tape_tree};
use tapepy::tape_language::{Monomial, Polynomial};
use tapepy::types::TypeExpr;

type C = Circuit<TypeExpr, ExprGenerator>;
type T = Tape<TypeExpr, ExprGenerator>;

#[test]
fn sorts_and_monomials_have_unit_texts() {
    assert_eq!(format_sorts::<TypeExpr>(&[]), "1");
    assert_eq!(format_sorts(&[TypeExpr::Int, TypeExpr::Bool]), "Int * Bool");
    assert_eq!(format_monomials::<TypeExpr>(&[]), "0");
    let monos = vec![Monomial::atom(TypeExpr::Int), Monomial::one()];
    assert_eq!(format_monomials(&monos), "Int + 1");
}

#[test]
fn polynomial_text_lists_terms() {
    let p = Polynomial::from_monomial_sorts(vec![vec![TypeExpr::Int, TypeExpr::Bool], vec![]]);
    assert_eq!(p.to_text(), "Int * Bool + 1");
    assert_eq!(Polynomial::<TypeExpr>::zero().to_text(), "0");
}

#[test]
fn node_text_names_its_tensor() {
    let node = MonomialHyperNode::new(
        TensorKind::Additive,
        Monomial::from_sorts(vec![TypeExpr::Int, TypeExpr::Bool]),
    );
    assert_eq!(node.to_text(), "add:Int * Bool");
    assert_eq!(TensorKind::Multiplicative.to_text(), "mul");
}

#[test]
fn circuit_text_writes_sequences_and_products() {
    let c: C = Circuit::Sequence(Box::new(Circuit::Id(TypeExpr::Int)), Box::new(Circuit::Copy(TypeExpr::Int)));
    assert_eq!(c.to_text(), "id(Int); copy(Int)");
    let p: C = Circuit::Product(Box::new(Circuit::IdOne), Box::new(Circuit::Discard(TypeExpr::Bool)));
    assert_eq!(p.to_text(), "id(1) ⊗ discard(Bool)");
}

#[test]
fn circuit_tree_shows_sorts_of_every_part() {
    let c: C = Circuit::Sequence(Box::new(Circuit::Id(TypeExpr::Int)), Box::new(Circuit::Copy(TypeExpr::Int)));
    assert_eq!(
        format_circuit_tree(&c, 0),
        "Seq [in: Int, out: Int * Int]\n  Id(Int) [in: Int, out: Int]\n  Copy(Int) [in: Int, out: Int * Int]"
    );
}

#[test]
fn tape_tree_shows_interfaces() {
    let zero: T = Tape::IdZero;
    assert_eq!(format_tape_tree(&zero, 0), "IdZero [in: 0, out: 0]");
    let id: T = Tape::Id(Monomial::atom(TypeExpr::Int));
    assert_eq!(format_tape_tree(&id, 1), "  Id(Int) [in: Int, out: Int]");
    let embedded: T = Tape::EmbedCircuit(Box::new(Circuit::Copy(TypeExpr::Int)));
    assert_eq!(
        format_tape_tree(&embedded, 0),
        "EmbedCircuit [in: Int, out: Int * Int]\n  Copy(Int) [in: Int, out: Int * Int]"
    );
}
