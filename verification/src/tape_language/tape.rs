//! Tapes: diagrams over sums of monomials, with circuits embedded in them.

use vstd::prelude::*;

use super::circuit::{circuit_io, circuit_view, copy_wires_circuit, id_circuit, join_wires_circuit, Circuit};
use super::{
    lemma_from_terms_terms, lemma_view_from_terms, lemma_view_terms, monomial_equals, monomial_views,
    polynomial_view, lemma_from_sorts_sorts, lemma_product_sorts, lemma_view_from_sorts, lemma_view_product, lemma_view_sorts,
    monomial_view, views, GeneratorShape, GeneratorTypes, Monomial, Polynomial,
};
use crate::label::Label;

pub use super::builders::{monomial_atoms, swap_sum_blocks};
pub use super::distributors::{inverse_left_distributor, left_distributor, swap_poly};
pub use super::validate::TapeValidationError;
pub use super::whisk::Whisker;

verus! {

#[derive(Debug)]
pub enum Tape<S, G> {
    Id(Monomial<S>),
    IdZero,
    EmbedCircuit(Box<Circuit<S, G>>),
    Swap { left: Monomial<S>, right: Monomial<S> },
    Trace { around: Monomial<S>, tape: Box<Tape<S, G>> },
    Sequence(Box<Tape<S, G>>, Box<Tape<S, G>>),
    Product(Box<Tape<S, G>>, Box<Tape<S, G>>),
    Sum(Box<Tape<S, G>>, Box<Tape<S, G>>),
    Discard(Monomial<S>),
    Split(Monomial<S>),
    Create(Monomial<S>),
    Merge(Monomial<S>),
}

/// The deep view of a tape.
pub open spec fn tape_view<S: DeepView, G: DeepView>(t: Tape<S, G>) -> Tape<S::V, G::V>
    decreases t,
{
    match t {
        Tape::Id(m) => Tape::Id(monomial_view(m)),
        Tape::IdZero => Tape::IdZero,
        Tape::EmbedCircuit(c) => Tape::EmbedCircuit(Box::new(circuit_view(*c))),
        Tape::Swap { left, right } => Tape::Swap { left: monomial_view(left), right: monomial_view(right) },
        Tape::Trace { around, tape } => Tape::Trace {
            around: monomial_view(around),
            tape: Box::new(tape_view(*tape)),
        },
        Tape::Sequence(l, r) => Tape::Sequence(Box::new(tape_view(*l)), Box::new(tape_view(*r))),
        Tape::Product(l, r) => Tape::Product(Box::new(tape_view(*l)), Box::new(tape_view(*r))),
        Tape::Sum(l, r) => Tape::Sum(Box::new(tape_view(*l)), Box::new(tape_view(*r))),
        Tape::Discard(m) => Tape::Discard(monomial_view(m)),
        Tape::Split(m) => Tape::Split(monomial_view(m)),
        Tape::Create(m) => Tape::Create(monomial_view(m)),
        Tape::Merge(m) => Tape::Merge(monomial_view(m)),
    }
}

impl<S: DeepView, G: DeepView> DeepView for Tape<S, G> {
    type V = Tape<S::V, G::V>;

    open spec fn deep_view(&self) -> Tape<S::V, G::V> {
        tape_view(*self)
    }
}

/// Numbers of input and output wires of a tape.
#[derive(Debug, Clone, PartialEq, Eq)]
pub struct TapeArity {
    pub inputs: usize,
    pub outputs: usize,
}

impl TapeArity {
    pub fn new(inputs: usize, outputs: usize) -> (r: Self)
        ensures
            r.inputs == inputs,
            r.outputs == outputs,
    {
        Self { inputs, outputs }
    }
}

/// Numbers of input and output wires of a tape, counted in sorts; `None`
/// when a sequential composition joins different numbers of wires, the
/// summands of a sum differ, or a trace goes around more wires than there
/// are.
pub open spec fn tape_arity<S, G: GeneratorShape>(t: Tape<S, G>) -> Option<(nat, nat)>
    decreases t,
{
    match t {
        Tape::Id(m) => Some((m.sorts().len(), m.sorts().len())),
        Tape::IdZero => Some((0, 0)),
        Tape::EmbedCircuit(c) => super::circuit::circuit_arity(*c),
        Tape::Swap { left, right } => Some(
            (left.sorts().len() + right.sorts().len(), left.sorts().len() + right.sorts().len()),
        ),
        Tape::Trace { around, tape } => match tape_arity(*tape) {
            Some((i, o)) => if i >= around.sorts().len() && o >= around.sorts().len() {
                Some(((i - around.sorts().len()) as nat, (o - around.sorts().len()) as nat))
            } else {
                None
            },
            None => None,
        },
        Tape::Sequence(l, r) => match (tape_arity(*l), tape_arity(*r)) {
            (Some((li, lo)), Some((ri, ro))) => if lo == ri {
                Some((li, ro))
            } else {
                None
            },
            _ => None,
        },
        Tape::Product(l, r) => match (tape_arity(*l), tape_arity(*r)) {
            (Some((li, lo)), Some((ri, ro))) => Some((li + ri, lo + ro)),
            _ => None,
        },
        Tape::Sum(l, r) => match (tape_arity(*l), tape_arity(*r)) {
            (Some((li, lo)), Some((ri, ro))) => if li == ri && lo == ro {
                Some((li, lo))
            } else {
                None
            },
            _ => None,
        },
        Tape::Discard(m) => Some((m.sorts().len(), 0)),
        Tape::Split(m) => Some((m.sorts().len(), m.sorts().len())),
        Tape::Create(m) => Some((0, m.sorts().len())),
        Tape::Merge(m) => Some((m.sorts().len(), m.sorts().len())),
    }
}

/// Every number in the arity computation of the tape fits in `usize`.
pub open spec fn tape_arity_fits<S, G: GeneratorShape>(t: Tape<S, G>) -> bool
    decreases t,
{
    match tape_arity(t) {
        None => false,
        Some((i, o)) => i <= usize::MAX && o <= usize::MAX && match t {
            Tape::Id(m) => 2 * m.sorts().len() <= usize::MAX,
            Tape::EmbedCircuit(c) => super::circuit::arity_fits(*c),
            Tape::Swap { left, right } => left.sorts().len() + right.sorts().len() <= usize::MAX,
            Tape::Trace { around, tape } => tape_arity_fits(*tape),
            Tape::Sequence(l, r) => tape_arity_fits(*l) && tape_arity_fits(*r),
            Tape::Product(l, r) => tape_arity_fits(*l) && tape_arity_fits(*r),
            Tape::Sum(l, r) => tape_arity_fits(*l) && tape_arity_fits(*r),
            _ => true,
        },
    }
}

impl<S, G: GeneratorShape> Tape<S, G> {
    /// Numbers of input and output wires, counted in sorts.
    pub fn arity(&self) -> (r: TapeArity)
        requires
            tape_arity_fits(*self),
        ensures
            tape_arity(*self) == Some((r.inputs as nat, r.outputs as nat)),
        decreases self,
    {
        match self {
            Tape::Id(mono) => {
                let len = mono.len();
                TapeArity::new(len, len)
            },
            Tape::IdZero => TapeArity::new(0, 0),
            Tape::EmbedCircuit(circuit) => {
                let ty = circuit.arity();
                TapeArity::new(ty.inputs, ty.outputs)
            },
            Tape::Swap { left, right } => {
                let inputs = left.len() + right.len();
                TapeArity::new(inputs, inputs)
            },
            Tape::Trace { around, tape } => {
                let inner = tape.arity();
                let around_len = around.len();
                TapeArity::new(inner.inputs - around_len, inner.outputs - around_len)
            },
            Tape::Sequence(left, right) => {
                let left_ty = left.arity();
                let right_ty = right.arity();
                TapeArity::new(left_ty.inputs, right_ty.outputs)
            },
            Tape::Product(left, right) => {
                let left_ty = left.arity();
                let right_ty = right.arity();
                TapeArity::new(left_ty.inputs + right_ty.inputs, left_ty.outputs + right_ty.outputs)
            },
            Tape::Sum(left, right) => {
                let left_ty = left.arity();
                let _right_ty = right.arity();
                TapeArity::new(left_ty.inputs, left_ty.outputs)
            },
            Tape::Discard(mono) => TapeArity::new(mono.len(), 0),
            Tape::Split(mono) => {
                let len = mono.len();
                TapeArity::new(len, len)
            },
            Tape::Create(mono) => TapeArity::new(0, mono.len()),
            Tape::Merge(mono) => {
                let len = mono.len();
                TapeArity::new(len, len)
            },
        }
    }
}

/// Two lists of monomials are equal term by term, each compared by its
/// sorts.
pub open spec fn monomials_eq<T>(a: Seq<Monomial<T>>, b: Seq<Monomial<T>>) -> bool {
    a.len() == b.len() && forall|k: int| 0 <= k < a.len() ==> #[trigger] a[k].sorts() == b[k].sorts()
}

/// Sums of monomials on the inputs and outputs of a tape, by view; `None`
/// when a circuit's sorts are unknown, a sequential composition joins
/// different interfaces, or a trace does not go around its first term.
pub open spec fn tape_io<S: DeepView, G: GeneratorTypes<S>>(t: Tape<S, G>) -> Option<
    (Seq<Monomial<S::V>>, Seq<Monomial<S::V>>),
>
    decreases t,
{
    match t {
        Tape::Id(m) => Some((seq![monomial_view(m)], seq![monomial_view(m)])),
        Tape::IdZero => Some((Seq::empty(), Seq::empty())),
        Tape::EmbedCircuit(c) => match circuit_io(*c) {
            Some((i, o)) => Some((seq![Monomial::spec_from_sorts(i)], seq![Monomial::spec_from_sorts(o)])),
            None => None,
        },
        Tape::Swap { left, right } => Some(
            (seq![monomial_view(left), monomial_view(right)], seq![monomial_view(right), monomial_view(left)]),
        ),
        Tape::Trace { around, tape } => match tape_io(*tape) {
            Some((i, o)) => if i.len() > 0 && o.len() > 0 && i[0].sorts() == monomial_view(around).sorts()
                && o[0].sorts() == monomial_view(around).sorts() {
                Some((i.drop_first(), o.drop_first()))
            } else {
                None
            },
            None => None,
        },
        Tape::Sequence(l, r) => match (tape_io(*l), tape_io(*r)) {
            (Some((li, lo)), Some((ri, ro))) => if monomials_eq(lo, ri) {
                Some((li, ro))
            } else {
                None
            },
            _ => None,
        },
        Tape::Product(l, r) => match (tape_io(*l), tape_io(*r)) {
            (Some((li, lo)), Some((ri, ro))) => Some(
                (Polynomial::product_terms(li, ri), Polynomial::product_terms(lo, ro)),
            ),
            _ => None,
        },
        Tape::Sum(l, r) => match (tape_io(*l), tape_io(*r)) {
            (Some((li, lo)), Some((ri, ro))) => Some((li + ri, lo + ro)),
            _ => None,
        },
        Tape::Discard(m) => Some((seq![monomial_view(m)], Seq::empty())),
        Tape::Split(m) => Some((seq![monomial_view(m)], seq![monomial_view(m), monomial_view(m)])),
        Tape::Create(m) => Some((Seq::empty(), seq![monomial_view(m)])),
        Tape::Merge(m) => Some((seq![monomial_view(m), monomial_view(m)], seq![monomial_view(m)])),
    }
}

/// Decides whether two lists of monomials are equal term by term.
pub fn monomials_equal<S: Label>(a: &Vec<Monomial<S>>, b: &Vec<Monomial<S>>) -> (r: bool)
    ensures
        r == monomials_eq(monomial_views(a@), monomial_views(b@)),
{
    if a.len() != b.len() {
        return false;
    }
    let mut i: usize = 0;
    while i < a.len()
        invariant
            a.len() == b.len(),
            i <= a.len(),
            forall|k: int| 0 <= k < i ==> #[trigger] monomial_views(a@)[k].sorts() == monomial_views(b@)[k].sorts(),
        decreases a.len() - i,
    {
        if !monomial_equals(&a[i], &b[i]) {
            proof {
                assert(monomial_views(a@)[i as int].sorts() != monomial_views(b@)[i as int].sorts());
            }
            return false;
        }
        i = i + 1;
    }
    true
}

/// The terms of the product of two sums given by their terms.
fn product_of_terms<S: Label>(left: Vec<Monomial<S>>, right: Vec<Monomial<S>>) -> (r: Vec<Monomial<S>>)
    ensures
        monomial_views(r@) == Polynomial::product_terms(monomial_views(left@), monomial_views(right@)),
{
    let ghost lv = left@;
    let ghost rv = right@;
    let lp = Polynomial::from_monomials(left);
    let rp = Polynomial::from_monomials(right);
    let prod = Polynomial::product(lp, rp);
    let ghost pv = prod;
    let terms = Polynomial::into_monomials(prod);
    proof {
        lemma_view_terms(lp);
        lemma_view_terms(rp);
        lemma_view_terms(pv);
        lemma_from_terms_terms(Polynomial::product_terms(monomial_views(lv), monomial_views(rv)));
    }
    terms
}

impl<S: Label, G: GeneratorTypes<S>> Tape<S, G> {
    /// Sums of monomials on the inputs and outputs; `None` when a circuit's
    /// sorts are unknown, a sequential composition joins different
    /// interfaces, or a trace does not go around its first term.
    pub fn io_types(&self) -> (r: Option<(Vec<Monomial<S>>, Vec<Monomial<S>>)>)
        ensures
            match r {
                Some((i, o)) => tape_io(*self) == Some((monomial_views(i@), monomial_views(o@))),
                None => tape_io(*self) is None,
            },
        decreases self,
    {
        match self {
            Tape::Id(mono) => {
                let i = vec![mono.duplicate()];
                let o = vec![mono.duplicate()];
                proof {
                    assert(monomial_views(i@) =~= seq![monomial_view(*mono)]);
                    assert(monomial_views(o@) =~= seq![monomial_view(*mono)]);
                }
                Some((i, o))
            },
            Tape::IdZero => {
                let i: Vec<Monomial<S>> = Vec::new();
                let o: Vec<Monomial<S>> = Vec::new();
                proof {
                    assert(monomial_views(i@) =~= Seq::<Monomial<S::V>>::empty());
                    assert(monomial_views(o@) =~= Seq::<Monomial<S::V>>::empty());
                }
                Some((i, o))
            },
            Tape::EmbedCircuit(circuit) => match circuit.io_types() {
                None => None,
                Some((inputs, outputs)) => {
                    let ghost iv = inputs@;
                    let ghost ov = outputs@;
                    let im = Monomial::from_sorts(inputs);
                    let om = Monomial::from_sorts(outputs);
                    proof {
                        lemma_view_from_sorts(iv);
                        lemma_view_from_sorts(ov);
                    }
                    let i = vec![im];
                    let o = vec![om];
                    proof {
                        assert(monomial_views(i@) =~= seq![Monomial::spec_from_sorts(views(iv))]);
                        assert(monomial_views(o@) =~= seq![Monomial::spec_from_sorts(views(ov))]);
                    }
                    Some((i, o))
                },
            },
            Tape::Swap { left, right } => {
                let i = vec![left.duplicate(), right.duplicate()];
                let o = vec![right.duplicate(), left.duplicate()];
                proof {
                    assert(monomial_views(i@) =~= seq![monomial_view(*left), monomial_view(*right)]);
                    assert(monomial_views(o@) =~= seq![monomial_view(*right), monomial_view(*left)]);
                }
                Some((i, o))
            },
            Tape::Trace { around, tape } => match tape.io_types() {
                None => None,
                Some((mut inputs, mut outputs)) => {
                    if inputs.len() == 0 || outputs.len() == 0 {
                        return None;
                    }
                    if !monomial_equals(&inputs[0], around) || !monomial_equals(&outputs[0], around) {
                        return None;
                    }
                    let ghost iv = inputs@;
                    let ghost ov = outputs@;
                    inputs.remove(0);
                    outputs.remove(0);
                    proof {
                        assert(monomial_views(inputs@) =~= monomial_views(iv).drop_first());
                        assert(monomial_views(outputs@) =~= monomial_views(ov).drop_first());
                    }
                    Some((inputs, outputs))
                },
            },
            Tape::Sequence(left, right) => {
                let l = left.io_types();
                let r = right.io_types();
                match l {
                    None => None,
                    Some((left_in, left_out)) => match r {
                        None => None,
                        Some((right_in, right_out)) => {
                            if !monomials_equal(&left_out, &right_in) {
                                return None;
                            }
                            Some((left_in, right_out))
                        },
                    },
                }
            },
            Tape::Product(left, right) => {
                let l = left.io_types();
                let r = right.io_types();
                match l {
                    None => None,
                    Some((left_in, left_out)) => match r {
                        None => None,
                        Some((right_in, right_out)) => {
                            let inputs = product_of_terms(left_in, right_in);
                            let outputs = product_of_terms(left_out, right_out);
                            Some((inputs, outputs))
                        },
                    },
                }
            },
            Tape::Sum(left, right) => {
                let l = left.io_types();
                let r = right.io_types();
                match l {
                    None => None,
                    Some((mut inputs, mut outputs)) => match r {
                        None => None,
                        Some((mut right_in, mut right_out)) => {
                            let ghost a = inputs@;
                            let ghost b = right_in@;
                            let ghost c = outputs@;
                            let ghost d = right_out@;
                            inputs.append(&mut right_in);
                            outputs.append(&mut right_out);
                            proof {
                                assert(monomial_views(inputs@) =~= monomial_views(a) + monomial_views(b));
                                assert(monomial_views(outputs@) =~= monomial_views(c) + monomial_views(d));
                            }
                            Some((inputs, outputs))
                        },
                    },
                }
            },
            Tape::Discard(mono) => {
                let i = vec![mono.duplicate()];
                let o: Vec<Monomial<S>> = Vec::new();
                proof {
                    assert(monomial_views(i@) =~= seq![monomial_view(*mono)]);
                    assert(monomial_views(o@) =~= Seq::<Monomial<S::V>>::empty());
                }
                Some((i, o))
            },
            Tape::Split(mono) => {
                let i = vec![mono.duplicate()];
                let o = vec![mono.duplicate(), mono.duplicate()];
                proof {
                    assert(monomial_views(i@) =~= seq![monomial_view(*mono)]);
                    assert(monomial_views(o@) =~= seq![monomial_view(*mono), monomial_view(*mono)]);
                }
                Some((i, o))
            },
            Tape::Create(mono) => {
                let i: Vec<Monomial<S>> = Vec::new();
                let o = vec![mono.duplicate()];
                proof {
                    assert(monomial_views(i@) =~= Seq::<Monomial<S::V>>::empty());
                    assert(monomial_views(o@) =~= seq![monomial_view(*mono)]);
                }
                Some((i, o))
            },
            Tape::Merge(mono) => {
                let i = vec![mono.duplicate(), mono.duplicate()];
                let o = vec![mono.duplicate()];
                proof {
                    assert(monomial_views(i@) =~= seq![monomial_view(*mono), monomial_view(*mono)]);
                    assert(monomial_views(o@) =~= seq![monomial_view(*mono)]);
                }
                Some((i, o))
            },
        }
    }
}

/// The sum of a list of tapes, folded from the left; `IdZero` for none.
pub open spec fn sum_all<S, G>(ts: Seq<Tape<S, G>>) -> Tape<S, G>
    decreases ts.len(),
{
    if ts.len() == 0 {
        Tape::IdZero
    } else if ts.len() == 1 {
        ts[0]
    } else {
        Tape::spec_sum(sum_all(ts.drop_last()), ts.last())
    }
}

/// The sorts of all the terms of a polynomial, term after term.
pub open spec fn poly_sorts<T>(terms: Seq<Monomial<T>>) -> Seq<T>
    decreases terms.len(),
{
    if terms.len() == 0 {
        Seq::empty()
    } else {
        poly_sorts(terms.drop_last()) + terms.last().sorts()
    }
}

/// The first term of a polynomial and the sum of the others.
pub open spec fn split_terms<T>(p: Polynomial<T>) -> (Option<Monomial<T>>, Polynomial<T>) {
    if p.terms().len() == 0 {
        (None, Polynomial::Zero)
    } else {
        (Some(p.terms()[0]), Polynomial::spec_from_terms(p.terms().drop_first()))
    }
}

/// `m` times every term of `p`.
pub open spec fn monomial_times<T>(m: Monomial<T>, p: Polynomial<T>) -> Polynomial<T> {
    Polynomial::spec_from_terms(p.terms().map_values(|t: Monomial<T>| Monomial::spec_product(m, t)))
}

impl<S, G> Tape<S, G> {
    /// Sum of tapes with `IdZero` absorbed.
    pub open spec fn spec_sum(left: Tape<S, G>, right: Tape<S, G>) -> Tape<S, G> {
        if left is IdZero {
            right
        } else if right is IdZero {
            left
        } else {
            Tape::Sum(Box::new(left), Box::new(right))
        }
    }

    /// Sequential composition of tapes: two `IdZero` give `IdZero`, two
    /// embedded circuits are composed inside one embedding.
    pub open spec fn spec_seq(left: Tape<S, G>, right: Tape<S, G>) -> Tape<S, G> {
        if left is IdZero && right is IdZero {
            Tape::IdZero
        } else if left is EmbedCircuit && right is EmbedCircuit {
            Tape::EmbedCircuit(Box::new(Circuit::spec_seq(*left->EmbedCircuit_0, *right->EmbedCircuit_0)))
        } else {
            Tape::Sequence(Box::new(left), Box::new(right))
        }
    }
}

/// Identities on the terms of a polynomial, summed.
pub open spec fn id_poly_spec<S, G>(p: Polynomial<S>) -> Tape<S, G> {
    sum_all(p.terms().map_values(|t: Monomial<S>| Tape::<S, G>::Id(t)))
}

/// Discards of the terms of a polynomial, summed.
pub open spec fn discard_poly_spec<S, G>(p: Polynomial<S>) -> Tape<S, G> {
    sum_all(p.terms().map_values(|t: Monomial<S>| Tape::<S, G>::Discard(t)))
}

/// Creations of the terms of a polynomial, summed.
pub open spec fn create_poly_spec<S, G>(p: Polynomial<S>) -> Tape<S, G> {
    sum_all(p.terms().map_values(|t: Monomial<S>| Tape::<S, G>::Create(t)))
}

/// The exchange of the wires of all terms of `left` with those of all terms
/// of `right`, as one embedded circuit.
pub open spec fn swap_sum_blocks_spec<S, G>(left: Polynomial<S>, right: Polynomial<S>) -> Tape<S, G> {
    Tape::EmbedCircuit(Box::new(super::circuit::permute_circuit_spec(
        poly_sorts(left.terms()) + poly_sorts(right.terms()),
        super::circuit::block_swap_perm(poly_sorts(left.terms()).len(), poly_sorts(right.terms()).len()),
    )))
}

/// For every term of `poly`, the exchange of its wires with those of
/// `right`, summed.
pub open spec fn sum_swaps_spec<S, G>(poly: Polynomial<S>, right: Monomial<S>) -> Tape<S, G> {
    sum_all(poly.terms().map_values(|t: Monomial<S>| Tape::<S, G>::EmbedCircuit(Box::new(
        super::circuit::permute_circuit_spec(
            t.sorts() + right.sorts(),
            super::circuit::block_swap_perm(t.sorts().len(), right.sorts().len()),
        ),
    ))))
}

} // verus!
