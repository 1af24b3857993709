//! Interfaces, sequential composition with identities, right whiskering and
//! products of the views of tapes over types and expression generators:
//! what the functions of the tape language compute, read on views.

use vstd::prelude::*;

use crate::expression_circuit::{ExprGenerator, ExprGeneratorModel};
use crate::tape_language::circuit::{circuit_io, circuit_view, Circuit};
use crate::tape_language::distributors::{inverse_left_distributor_spec, left_distributor_spec};
use crate::tape_language::tape::{monomials_eq, tape_io, tape_view, Tape};
use crate::tape_language::whisk::{
    is_product_of, left_whisk_poly_spec, right_whisk_mono_spec, right_whisk_poly_spec, seq_with_id_spec,
};
use crate::tape_language::{monomial_view, Monomial, Polynomial};
use crate::types::{TypeExpr, TypeModel};

verus! {

/// The view of a circuit over types and expression generators.
pub type CircuitModel = Circuit<TypeModel, ExprGeneratorModel>;

/// The view of a tape over types and expression generators.
pub type TapeModel = Tape<TypeModel, ExprGeneratorModel>;

/// The input and output types of a generator: a predicate has one `Bool`
/// output.
pub open spec fn generator_io(g: ExprGeneratorModel) -> (Seq<TypeModel>, Seq<TypeModel>) {
    match g {
        ExprGeneratorModel::Function { input_types, output_types, .. } => (input_types, output_types),
        ExprGeneratorModel::Predicate { input_types, .. } => (input_types, seq![TypeModel::Bool]),
    }
}

/// `circuit_io`, read on the view of a circuit.
pub open spec fn circuit_io_model(c: CircuitModel) -> Option<(Seq<TypeModel>, Seq<TypeModel>)>
    decreases c,
{
    match c {
        Circuit::Id(s) => Some((seq![s], seq![s])),
        Circuit::IdOne => Some((Seq::empty(), Seq::empty())),
        Circuit::Generator(g) => Some(generator_io(g)),
        Circuit::Swap { left, right } => Some((seq![left, right], seq![right, left])),
        Circuit::Sequence(l, r) => match (circuit_io_model(*l), circuit_io_model(*r)) {
            (Some((li, lo)), Some((ri, ro))) => if lo == ri {
                Some((li, ro))
            } else {
                None
            },
            _ => None,
        },
        Circuit::Product(l, r) => match (circuit_io_model(*l), circuit_io_model(*r)) {
            (Some((li, lo)), Some((ri, ro))) => Some((li + ri, lo + ro)),
            _ => None,
        },
        Circuit::Copy(s) => Some((seq![s], seq![s, s])),
        Circuit::Discard(s) => Some((seq![s], Seq::empty())),
        Circuit::Join(s) => Some((seq![s, s], seq![s])),
    }
}

/// `tape_io`, read on the view of a tape.
pub open spec fn tape_io_model(t: TapeModel) -> Option<(Seq<Monomial<TypeModel>>, Seq<Monomial<TypeModel>>)>
    decreases t,
{
    match t {
        Tape::Id(m) => Some((seq![m], seq![m])),
        Tape::IdZero => Some((Seq::empty(), Seq::empty())),
        Tape::EmbedCircuit(c) => match circuit_io_model(*c) {
            Some((i, o)) => Some((seq![Monomial::spec_from_sorts(i)], seq![Monomial::spec_from_sorts(o)])),
            None => None,
        },
        Tape::Swap { left, right } => Some((seq![left, right], seq![right, left])),
        Tape::Trace { around, tape } => match tape_io_model(*tape) {
            Some((i, o)) => if i.len() > 0 && o.len() > 0 && i[0].sorts() == around.sorts() && o[0].sorts()
                == around.sorts() {
                Some((i.drop_first(), o.drop_first()))
            } else {
                None
            },
            None => None,
        },
        Tape::Sequence(l, r) => match (tape_io_model(*l), tape_io_model(*r)) {
            (Some((li, lo)), Some((ri, ro))) => if monomials_eq(lo, ri) {
                Some((li, ro))
            } else {
                None
            },
            _ => None,
        },
        Tape::Product(l, r) => match (tape_io_model(*l), tape_io_model(*r)) {
            (Some((li, lo)), Some((ri, ro))) => Some(
                (Polynomial::product_terms(li, ri), Polynomial::product_terms(lo, ro)),
            ),
            _ => None,
        },
        Tape::Sum(l, r) => match (tape_io_model(*l), tape_io_model(*r)) {
            (Some((li, lo)), Some((ri, ro))) => Some((li + ri, lo + ro)),
            _ => None,
        },
        Tape::Discard(m) => Some((seq![m], Seq::empty())),
        Tape::Split(m) => Some((seq![m], seq![m, m])),
        Tape::Create(m) => Some((Seq::empty(), seq![m])),
        Tape::Merge(m) => Some((seq![m, m], seq![m])),
    }
}

/// The interface of a circuit depends on its view only.
pub proof fn lemma_circuit_io_model(c: Circuit<TypeExpr, ExprGenerator>)
    ensures
        circuit_io(c) == circuit_io_model(circuit_view(c)),
    decreases c,
{
    match c {
        Circuit::Sequence(l, r) => {
            lemma_circuit_io_model(*l);
            lemma_circuit_io_model(*r);
        },
        Circuit::Product(l, r) => {
            lemma_circuit_io_model(*l);
            lemma_circuit_io_model(*r);
        },
        _ => {},
    }
}

/// The interface of a tape depends on its view only.
pub proof fn lemma_tape_io_model(t: Tape<TypeExpr, ExprGenerator>)
    ensures
        tape_io(t) == tape_io_model(tape_view(t)),
    decreases t,
{
    match t {
        Tape::EmbedCircuit(c) => {
            lemma_circuit_io_model(*c);
        },
        Tape::Trace { around, tape } => {
            lemma_tape_io_model(*tape);
        },
        Tape::Sequence(l, r) => {
            lemma_tape_io_model(*l);
            lemma_tape_io_model(*r);
        },
        Tape::Product(l, r) => {
            lemma_tape_io_model(*l);
            lemma_tape_io_model(*r);
        },
        Tape::Sum(l, r) => {
            lemma_tape_io_model(*l);
            lemma_tape_io_model(*r);
        },
        _ => {},
    }
}

/// `seq_with_id_spec`, read on views.
pub open spec fn seq_with_id_model(left: TapeModel, right: TapeModel) -> TapeModel {
    let meet = tape_io_model(left) is Some && tape_io_model(right) is Some && monomials_eq(
        tape_io_model(left).unwrap().1,
        tape_io_model(right).unwrap().0,
    );
    if left is Id {
        if meet {
            right
        } else {
            Tape::spec_seq(left, right)
        }
    } else if right is Id {
        if meet {
            left
        } else {
            Tape::spec_seq(left, right)
        }
    } else {
        Tape::spec_seq(left, right)
    }
}

/// `right_whisk_poly_spec`, read on views.
pub open spec fn right_whisk_poly_model(t: TapeModel, terms: Seq<Monomial<TypeModel>>) -> TapeModel
    decreases terms.len(),
{
    if terms.len() == 0 {
        Tape::IdZero
    } else if terms.len() == 1 {
        right_whisk_mono_spec(t, terms[0])
    } else {
        let head = terms[0];
        let rest = Polynomial::spec_from_terms(terms.drop_first());
        let io = tape_io_model(t).unwrap();
        let left_dist = left_distributor_spec(io.0, Polynomial::Monomial(head), rest);
        let mid = Tape::spec_sum(right_whisk_mono_spec(t, head), right_whisk_poly_model(t, terms.drop_first()));
        let right_dist = inverse_left_distributor_spec(io.1, Polynomial::Monomial(head), rest);
        Tape::spec_seq(left_dist, Tape::spec_seq(mid, right_dist))
    }
}

/// The product of two tapes, read on views: the second whiskered on the
/// left by the inputs of the first, then the first whiskered on the right
/// by the outputs of the second.
pub open spec fn product_model(t1: TapeModel, t2: TapeModel) -> TapeModel {
    seq_with_id_model(
        left_whisk_poly_spec(t2, Polynomial::spec_from_terms(tape_io_model(t1).unwrap().0)),
        right_whisk_poly_model(t1, tape_io_model(t2).unwrap().1),
    )
}

proof fn lemma_right_whisk_poly_model(t: Tape<TypeExpr, ExprGenerator>, terms: Seq<Monomial<TypeModel>>)
    ensures
        right_whisk_poly_spec(t, terms) == right_whisk_poly_model(tape_view(t), terms),
    decreases terms.len(),
{
    lemma_tape_io_model(t);
    if terms.len() > 1 {
        lemma_right_whisk_poly_model(t, terms.drop_first());
    }
}

proof fn lemma_seq_with_id_model(left: Tape<TypeExpr, ExprGenerator>, right: Tape<TypeExpr, ExprGenerator>)
    ensures
        tape_view(seq_with_id_spec(left, right)) == seq_with_id_model(tape_view(left), tape_view(right)),
{
    lemma_tape_io_model(left);
    lemma_tape_io_model(right);
    crate::tape_language::builders::lemma_view_tape_seq(left, right);
}

/// A product of two tapes has the view that `product_model` gives.
pub proof fn lemma_product_model(
    t1: Tape<TypeExpr, ExprGenerator>,
    t2: Tape<TypeExpr, ExprGenerator>,
    t: Tape<TypeExpr, ExprGenerator>,
)
    requires
        is_product_of(t1, t2, t),
    ensures
        tape_view(t) == product_model(tape_view(t1), tape_view(t2)),
        tape_io(t) == tape_io_model(product_model(tape_view(t1), tape_view(t2))),
{
    let (l, r) = choose|l: Tape<TypeExpr, ExprGenerator>, r: Tape<TypeExpr, ExprGenerator>|
        tape_view(l) == left_whisk_poly_spec(tape_view(t2), Polynomial::spec_from_terms(tape_io(t1).unwrap().0))
            && tape_view(r) == right_whisk_poly_spec(t1, tape_io(t2).unwrap().1) && #[trigger] seq_with_id_spec(l, r) == t;
    lemma_tape_io_model(t1);
    lemma_tape_io_model(t2);
    lemma_tape_io_model(t);
    lemma_right_whisk_poly_model(t1, tape_io(t2).unwrap().1);
    lemma_seq_with_id_model(l, r);
}

} // verus!
