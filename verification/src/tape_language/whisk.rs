//! Whiskering of tapes by monomials and polynomials, and the constructions
//! built on it: the product, convolution and Kleene star of tapes.

use vstd::prelude::*;

use super::builders::{
    lemma_view_tape_seq, lemma_view_tape_sum, merge_poly, merge_poly_spec, split_poly, split_poly_spec, split_polynomial,
};
use super::circuit::{circuit_view, id_circuit, lemma_view_id, lemma_view_seq_product, Circuit};
use super::distributors::{
    inverse_left_distributor, inverse_left_distributor_spec, left_distributor, left_distributor_spec,
};
use super::tape::{monomials_eq, monomials_equal, tape_io, tape_view, Tape};
use super::text::Text;
use super::validate::TapeValidationError;
use super::{
    lemma_from_terms_terms, lemma_view_from_terms, lemma_view_product, lemma_view_sorts, lemma_view_terms,
    monomial_view, monomial_views, polynomial_view, views, GeneratorTypes, Monomial, Polynomial,
};
use crate::label::Label;

verus! {

/// Places the monomial `left` beside every wire bundle of the tape, on the
/// left.
pub open spec fn left_whisk_mono_spec<T, H>(t: Tape<T, H>, left: Monomial<T>) -> Tape<T, H>
    decreases t,
{
    match t {
        Tape::IdZero => Tape::IdZero,
        Tape::EmbedCircuit(c) => Tape::EmbedCircuit(Box::new(Circuit::spec_product(id_circuit(left.sorts()), *c))),
        Tape::Sequence(a, b) => Tape::Sequence(
            Box::new(left_whisk_mono_spec(*a, left)),
            Box::new(left_whisk_mono_spec(*b, left)),
        ),
        Tape::Product(a, b) => Tape::Product(
            Box::new(left_whisk_mono_spec(*a, left)),
            Box::new(left_whisk_mono_spec(*b, left)),
        ),
        Tape::Sum(a, b) => Tape::Sum(Box::new(left_whisk_mono_spec(*a, left)), Box::new(left_whisk_mono_spec(*b, left))),
        Tape::Trace { around, tape } => Tape::Trace {
            around: Monomial::spec_product(left, around),
            tape: Box::new(left_whisk_mono_spec(*tape, left)),
        },
        Tape::Id(m) => Tape::Id(Monomial::spec_product(left, m)),
        Tape::Swap { left: a, right: b } => Tape::Swap {
            left: Monomial::spec_product(left, a),
            right: Monomial::spec_product(left, b),
        },
        Tape::Discard(m) => Tape::Discard(Monomial::spec_product(left, m)),
        Tape::Split(m) => Tape::Split(Monomial::spec_product(left, m)),
        Tape::Create(m) => Tape::Create(Monomial::spec_product(left, m)),
        Tape::Merge(m) => Tape::Merge(Monomial::spec_product(left, m)),
    }
}

/// Places the monomial `right` beside every wire bundle of the tape, on the
/// right.
pub open spec fn right_whisk_mono_spec<T, H>(t: Tape<T, H>, right: Monomial<T>) -> Tape<T, H>
    decreases t,
{
    match t {
        Tape::IdZero => Tape::IdZero,
        Tape::EmbedCircuit(c) => Tape::EmbedCircuit(Box::new(Circuit::spec_product(*c, id_circuit(right.sorts())))),
        Tape::Sequence(a, b) => Tape::Sequence(
            Box::new(right_whisk_mono_spec(*a, right)),
            Box::new(right_whisk_mono_spec(*b, right)),
        ),
        Tape::Product(a, b) => Tape::Product(
            Box::new(right_whisk_mono_spec(*a, right)),
            Box::new(right_whisk_mono_spec(*b, right)),
        ),
        Tape::Sum(a, b) => Tape::Sum(
            Box::new(right_whisk_mono_spec(*a, right)),
            Box::new(right_whisk_mono_spec(*b, right)),
        ),
        Tape::Trace { around, tape } => Tape::Trace {
            around: Monomial::spec_product(around, right),
            tape: Box::new(right_whisk_mono_spec(*tape, right)),
        },
        Tape::Id(m) => Tape::Id(Monomial::spec_product(m, right)),
        Tape::Swap { left: a, right: b } => Tape::Swap {
            left: Monomial::spec_product(a, right),
            right: Monomial::spec_product(b, right),
        },
        Tape::Discard(m) => Tape::Discard(Monomial::spec_product(m, right)),
        Tape::Split(m) => Tape::Split(Monomial::spec_product(m, right)),
        Tape::Create(m) => Tape::Create(Monomial::spec_product(m, right)),
        Tape::Merge(m) => Tape::Merge(Monomial::spec_product(m, right)),
    }
}

/// Left whiskering by a polynomial: the sum of the whiskerings by its
/// summands, following the shape of the polynomial.
pub open spec fn left_whisk_poly_spec<T, H>(t: Tape<T, H>, p: Polynomial<T>) -> Tape<T, H>
    decreases p,
{
    match p {
        Polynomial::Zero => Tape::IdZero,
        Polynomial::Monomial(m) => left_whisk_mono_spec(t, m),
        Polynomial::Sum(a, b) => Tape::spec_sum(left_whisk_poly_spec(t, *a), left_whisk_poly_spec(t, *b)),
    }
}

/// Right whiskering by the polynomial with the given terms: by one term it
/// is the whiskering by that monomial; by a head and a rest, the inputs are
/// distributed, the whiskerings by the head and by the rest are summed, and
/// the outputs are gathered back by the inverse distributor.
pub open spec fn right_whisk_poly_spec<S: DeepView, G: GeneratorTypes<S> + DeepView>(
    t: Tape<S, G>,
    terms: Seq<Monomial<S::V>>,
) -> Tape<S::V, G::V>
    decreases terms.len(),
{
    if terms.len() == 0 {
        Tape::IdZero
    } else if terms.len() == 1 {
        right_whisk_mono_spec(tape_view(t), terms[0])
    } else {
        let head = terms[0];
        let rest = Polynomial::spec_from_terms(terms.drop_first());
        let io = tape_io(t).unwrap();
        let left_dist = left_distributor_spec(io.0, Polynomial::Monomial(head), rest);
        let mid = Tape::spec_sum(right_whisk_mono_spec(tape_view(t), head), right_whisk_poly_spec(t, terms.drop_first()));
        let right_dist = inverse_left_distributor_spec(io.1, Polynomial::Monomial(head), rest);
        Tape::spec_seq(left_dist, Tape::spec_seq(mid, right_dist))
    }
}

/// Right whiskering by the polynomial can be built: whiskering by two or
/// more terms needs the interface of the tape.
pub open spec fn right_whisk_defined<S: DeepView, G: GeneratorTypes<S>>(t: Tape<S, G>, p: Polynomial<S>) -> bool {
    polynomial_view(p).terms().len() >= 2 ==> tape_io(t) is Some
}

/// The identity on the sorts of a monomial, as a circuit.
fn id_of_monomial<S: Label, G: DeepView>(m: &Monomial<S>) -> (r: Circuit<S, G>)
    ensures
        circuit_view(r) == id_circuit::<S::V, G::V>(monomial_view(*m).sorts()),
{
    let sorts = m.sorts_vec();
    proof {
        lemma_view_sorts(*m);
        lemma_view_id::<S, G>(sorts@);
        assert(sorts.deep_view() =~= views(sorts@));
    }
    Circuit::id(sorts)
}

impl<S: Label, G: Label> Tape<S, G> {
    /// Whiskers the tape on the left by a monomial.
    pub fn left_whisk_mono(&self, left: &Monomial<S>) -> (r: Tape<S, G>)
        ensures
            tape_view(r) == left_whisk_mono_spec(tape_view(*self), monomial_view(*left)),
        decreases self,
    {
        let l = left.duplicate();
        proof {
            lemma_view_product(l, *left);
        }
        match self {
            Tape::IdZero => Tape::IdZero,
            Tape::EmbedCircuit(circuit) => {
                let id_left: Circuit<S, G> = id_of_monomial(left);
                let inner = circuit.duplicate();
                proof {
                    lemma_view_seq_product(id_left, inner);
                }
                Tape::EmbedCircuit(Box::new(Circuit::product(id_left, inner)))
            },
            Tape::Sequence(a, b) => Tape::Sequence(Box::new(a.left_whisk_mono(left)), Box::new(b.left_whisk_mono(left))),
            Tape::Product(a, b) => Tape::Product(Box::new(a.left_whisk_mono(left)), Box::new(b.left_whisk_mono(left))),
            Tape::Sum(a, b) => Tape::Sum(Box::new(a.left_whisk_mono(left)), Box::new(b.left_whisk_mono(left))),
            Tape::Trace { around, tape } => {
                let a = around.duplicate();
                proof {
                    lemma_view_product(l, a);
                }
                Tape::Trace { around: Monomial::product(l, a), tape: Box::new(tape.left_whisk_mono(left)) }
            },
            Tape::Id(m) => {
                let m = m.duplicate();
                proof {
                    lemma_view_product(l, m);
                }
                Tape::Id(Monomial::product(l, m))
            },
            Tape::Swap { left: a, right: b } => {
                let a = a.duplicate();
                let b = b.duplicate();
                let l2 = left.duplicate();
                proof {
                    lemma_view_product(l, a);
                    lemma_view_product(l2, b);
                }
                Tape::Swap { left: Monomial::product(l, a), right: Monomial::product(l2, b) }
            },
            Tape::Discard(m) => {
                let m = m.duplicate();
                proof {
                    lemma_view_product(l, m);
                }
                Tape::Discard(Monomial::product(l, m))
            },
            Tape::Split(m) => {
                let m = m.duplicate();
                proof {
                    lemma_view_product(l, m);
                }
                Tape::Split(Monomial::product(l, m))
            },
            Tape::Create(m) => {
                let m = m.duplicate();
                proof {
                    lemma_view_product(l, m);
                }
                Tape::Create(Monomial::product(l, m))
            },
            Tape::Merge(m) => {
                let m = m.duplicate();
                proof {
                    lemma_view_product(l, m);
                }
                Tape::Merge(Monomial::product(l, m))
            },
        }
    }

    /// Whiskers the tape on the right by a monomial.
    pub fn right_whisk_mono(&self, right: &Monomial<S>) -> (r: Tape<S, G>)
        ensures
            tape_view(r) == right_whisk_mono_spec(tape_view(*self), monomial_view(*right)),
        decreases self,
    {
        let rt = right.duplicate();
        match self {
            Tape::IdZero => Tape::IdZero,
            Tape::EmbedCircuit(circuit) => {
                let id_right: Circuit<S, G> = id_of_monomial(right);
                let inner = circuit.duplicate();
                proof {
                    lemma_view_seq_product(inner, id_right);
                }
                Tape::EmbedCircuit(Box::new(Circuit::product(inner, id_right)))
            },
            Tape::Sequence(a, b) => Tape::Sequence(
                Box::new(a.right_whisk_mono(right)),
                Box::new(b.right_whisk_mono(right)),
            ),
            Tape::Product(a, b) => Tape::Product(
                Box::new(a.right_whisk_mono(right)),
                Box::new(b.right_whisk_mono(right)),
            ),
            Tape::Sum(a, b) => Tape::Sum(Box::new(a.right_whisk_mono(right)), Box::new(b.right_whisk_mono(right))),
            Tape::Trace { around, tape } => {
                let a = around.duplicate();
                proof {
                    lemma_view_product(a, rt);
                }
                Tape::Trace { around: Monomial::product(a, rt), tape: Box::new(tape.right_whisk_mono(right)) }
            },
            Tape::Id(m) => {
                let m = m.duplicate();
                proof {
                    lemma_view_product(m, rt);
                }
                Tape::Id(Monomial::product(m, rt))
            },
            Tape::Swap { left: a, right: b } => {
                let a = a.duplicate();
                let b = b.duplicate();
                let r2 = right.duplicate();
                proof {
                    lemma_view_product(a, rt);
                    lemma_view_product(b, r2);
                }
                Tape::Swap { left: Monomial::product(a, rt), right: Monomial::product(b, r2) }
            },
            Tape::Discard(m) => {
                let m = m.duplicate();
                proof {
                    lemma_view_product(m, rt);
                }
                Tape::Discard(Monomial::product(m, rt))
            },
            Tape::Split(m) => {
                let m = m.duplicate();
                proof {
                    lemma_view_product(m, rt);
                }
                Tape::Split(Monomial::product(m, rt))
            },
            Tape::Create(m) => {
                let m = m.duplicate();
                proof {
                    lemma_view_product(m, rt);
                }
                Tape::Create(Monomial::product(m, rt))
            },
            Tape::Merge(m) => {
                let m = m.duplicate();
                proof {
                    lemma_view_product(m, rt);
                }
                Tape::Merge(Monomial::product(m, rt))
            },
        }
    }

    /// Whiskers the tape on the left by a polynomial, summand by summand.
    pub fn left_whisk_poly(&self, poly: &Polynomial<S>) -> (r: Tape<S, G>)
        ensures
            tape_view(r) == left_whisk_poly_spec(tape_view(*self), polynomial_view(*poly)),
        decreases poly,
    {
        match poly {
            Polynomial::Zero => Tape::IdZero,
            Polynomial::Monomial(term) => self.left_whisk_mono(term),
            Polynomial::Sum(a, b) => {
                let l = self.left_whisk_poly(a);
                let r = self.left_whisk_poly(b);
                proof {
                    lemma_view_tape_sum(l, r);
                }
                Tape::sum(l, r)
            },
        }
    }
}

impl<S: Label, G: Label + GeneratorTypes<S>> Tape<S, G> {
    /// Whiskers the tape on the right by a polynomial: by one term directly;
    /// by more, through the distributors on the tape's interfaces.
    pub fn right_whisk_poly(&self, poly: &Polynomial<S>) -> (r: Tape<S, G>)
        requires
            right_whisk_defined(*self, *poly),
        ensures
            tape_view(r) == right_whisk_poly_spec(*self, polynomial_view(*poly).terms()),
        decreases polynomial_view(*poly).terms().len(),
    {
        let (head, rest) = split_polynomial(poly);
        let ghost vt = polynomial_view(*poly).terms();
        match head {
            None => Tape::IdZero,
            Some(head) => {
                proof {
                    lemma_from_terms_terms(vt.drop_first());
                }
                if let Polynomial::Zero = rest {
                    return self.right_whisk_mono(&head);
                }
                proof {
                    assert(vt.len() >= 2);
                }
                let (inputs, outputs) = match self.io_types() {
                    Some(io) => io,
                    None => {
                        proof {
                            assert(false);
                        }
                        return Tape::IdZero;
                    },
                };
                let ghost iv = inputs@;
                let ghost ov = outputs@;
                let left_poly = Polynomial::from_monomials(inputs);
                let right_poly = Polynomial::from_monomials(outputs);
                proof {
                    lemma_view_terms(left_poly);
                    lemma_view_terms(right_poly);
                }
                let head_left = Polynomial::Monomial(head.duplicate());
                let head_right = Polynomial::Monomial(head.duplicate());
                let left_dist: Tape<S, G> = left_distributor(&left_poly, &head_left, &rest);
                let whisk_head = self.right_whisk_mono(&head);
                let whisk_rest = self.right_whisk_poly(&rest);
                proof {
                    lemma_view_tape_sum(whisk_head, whisk_rest);
                }
                let mid = Tape::sum(whisk_head, whisk_rest);
                let right_dist: Tape<S, G> = inverse_left_distributor(&right_poly, &head_right, &rest);
                proof {
                    lemma_view_tape_seq(mid, right_dist);
                    lemma_view_tape_seq(left_dist, Tape::spec_seq(mid, right_dist));
                }
                Tape::seq(left_dist, Tape::seq(mid, right_dist))
            },
        }
    }
}

/// Whiskering of a tape by a monomial or a polynomial, on either side.
pub trait Whisker<Rhs> {
    type Output;

    /// Whether right whiskering by `rhs` can be built.
    spec fn right_whisk_allowed(&self, rhs: &Rhs) -> bool;

    fn left_whisk(&self, rhs: &Rhs) -> Self::Output;

    fn right_whisk(&self, rhs: &Rhs) -> Self::Output
        requires
            self.right_whisk_allowed(rhs),
    ;
}

impl<S: Label, G: Label> Whisker<Monomial<S>> for Tape<S, G> {
    type Output = Tape<S, G>;

    open spec fn right_whisk_allowed(&self, rhs: &Monomial<S>) -> bool {
        true
    }

    fn left_whisk(&self, rhs: &Monomial<S>) -> (r: Tape<S, G>)
        ensures
            tape_view(r) == left_whisk_mono_spec(tape_view(*self), monomial_view(*rhs)),
    {
        self.left_whisk_mono(rhs)
    }

    fn right_whisk(&self, rhs: &Monomial<S>) -> (r: Tape<S, G>)
        ensures
            tape_view(r) == right_whisk_mono_spec(tape_view(*self), monomial_view(*rhs)),
    {
        self.right_whisk_mono(rhs)
    }
}

impl<S: Label, G: Label + GeneratorTypes<S>> Whisker<Polynomial<S>> for Tape<S, G> {
    type Output = Tape<S, G>;

    open spec fn right_whisk_allowed(&self, rhs: &Polynomial<S>) -> bool {
        right_whisk_defined(*self, *rhs)
    }

    fn left_whisk(&self, rhs: &Polynomial<S>) -> (r: Tape<S, G>)
        ensures
            tape_view(r) == left_whisk_poly_spec(tape_view(*self), polynomial_view(*rhs)),
    {
        self.left_whisk_poly(rhs)
    }

    fn right_whisk(&self, rhs: &Polynomial<S>) -> (r: Tape<S, G>)
        ensures
            tape_view(r) == right_whisk_poly_spec(*self, polynomial_view(*rhs).terms()),
    {
        self.right_whisk_poly(rhs)
    }
}

/// Sequential composition that drops an identity whose interface meets the
/// other side exactly: checked on the left first, then on the right.
pub open spec fn seq_with_id_spec<S: DeepView, G: GeneratorTypes<S>>(left: Tape<S, G>, right: Tape<S, G>) -> Tape<S, G> {
    let meet = tape_io(left) is Some && tape_io(right) is Some && monomials_eq(
        tape_io(left).unwrap().1,
        tape_io(right).unwrap().0,
    );
    if left is Id {
        if meet {
            right
        } else {
            Tape::spec_seq(left, right)
        }
    } else if right is Id {
        if meet {
            left
        } else {
            Tape::spec_seq(left, right)
        }
    } else {
        Tape::spec_seq(left, right)
    }
}

/// The tape is the product of `t1` and `t2` as built before checking: `t2`
/// whiskered on the left by the inputs of `t1`, then `t1` whiskered on the
/// right by the outputs of `t2`, composed with identities dropped.
pub open spec fn is_product_of<S: DeepView, G: GeneratorTypes<S> + DeepView>(
    t1: Tape<S, G>,
    t2: Tape<S, G>,
    t: Tape<S, G>,
) -> bool {
    exists|l: Tape<S, G>, r: Tape<S, G>|
        tape_view(l) == left_whisk_poly_spec(tape_view(t2), Polynomial::spec_from_terms(tape_io(t1).unwrap().0))
            && tape_view(r) == right_whisk_poly_spec(t1, tape_io(t2).unwrap().1) && #[trigger] seq_with_id_spec(l, r)
            == t
}

impl<S: Label, G: Label + GeneratorTypes<S>> Tape<S, G> {
    /// Sequential composition that drops an identity whose interface meets
    /// the other side.
    pub fn seq_with_id(left: Tape<S, G>, right: Tape<S, G>) -> (r: Tape<S, G>)
        ensures
            r == seq_with_id_spec(left, right),
    {
        let is_left_id = match &left {
            Tape::Id(_) => true,
            _ => false,
        };
        let is_right_id = match &right {
            Tape::Id(_) => true,
            _ => false,
        };
        if is_left_id || is_right_id {
            let meet = match (left.io_types(), right.io_types()) {
                (Some((_left_in, left_out)), Some((right_in, _right_out))) => monomials_equal(&left_out, &right_in),
                _ => false,
            };
            if meet {
                if is_left_id {
                    return right;
                } else {
                    return left;
                }
            }
        }
        Tape::seq(left, right)
    }

}

impl<S: Label + Text, G: Label + GeneratorTypes<S> + Text> Tape<S, G> {
    /// The product of two tapes, `t2` whiskered on the left by the inputs of
    /// `t1` followed by `t1` whiskered on the right by the outputs of `t2`;
    /// an error when the composite does not type check.
    pub fn product(t1: &Tape<S, G>, t2: &Tape<S, G>) -> (r: Result<Tape<S, G>, TapeValidationError<S>>)
        requires
            tape_io(*t1) is Some,
            tape_io(*t2) is Some,
        ensures
            match r {
                Ok(t) => is_product_of(*t1, *t2, t) && tape_io(t) is Some,
                Err(_) => exists|t: Tape<S, G>| is_product_of(*t1, *t2, t) && tape_io(t) is None,
            },
    {
        let (p1_in, _q1_out) = match t1.io_types() {
            Some(io) => io,
            None => {
                proof {
                    assert(false);
                }
                return Err(
                    TapeValidationError {
                        path: Vec::new(),
                        left_out: None,
                        right_in: None,
                        left_tape: None,
                        right_tape: None,
                        full_tape: String::new(),
                    },
                );
            },
        };
        let (_p2_in, q2_out) = match t2.io_types() {
            Some(io) => io,
            None => {
                proof {
                    assert(false);
                }
                return Err(
                    TapeValidationError {
                        path: Vec::new(),
                        left_out: None,
                        right_in: None,
                        left_tape: None,
                        right_tape: None,
                        full_tape: String::new(),
                    },
                );
            },
        };
        let ghost iv = p1_in@;
        let ghost ov = q2_out@;
        let p1 = Polynomial::from_monomials(p1_in);
        let q2 = Polynomial::from_monomials(q2_out);
        proof {
            lemma_view_from_terms(iv);
            lemma_view_terms(q2);
        }
        let left = t2.left_whisk_poly(&p1);
        let right = t1.right_whisk_poly(&q2);
        proof {
            assert(tape_view(left) == left_whisk_poly_spec(
                tape_view(*t2),
                Polynomial::spec_from_terms(tape_io(*t1).unwrap().0),
            ));
            assert(tape_view(right) == right_whisk_poly_spec(*t1, tape_io(*t2).unwrap().1));
        }
        let tape = Tape::seq_with_id(left, right);
        proof {
            assert(is_product_of(*t1, *t2, tape));
        }
        match tape.validate() {
            Ok(()) => Ok(tape),
            Err(e) => Err(e),
        }
    }

}

impl<S: Label, G: Label + GeneratorTypes<S>> Tape<S, G> {
    /// The convolution of two tapes of the same interfaces: split the
    /// inputs, run both tapes side by side, and merge the outputs.
    pub fn convolution(t1: Tape<S, G>, t2: Tape<S, G>) -> (r: Tape<S, G>)
        requires
            tape_io(t1) is Some,
            tape_io(t2) is Some,
            monomials_eq(tape_io(t1).unwrap().0, tape_io(t2).unwrap().0),
            monomials_eq(tape_io(t1).unwrap().1, tape_io(t2).unwrap().1),
        ensures
            tape_view(r) == Tape::spec_seq(
                split_poly_spec::<S::V, G::V>(tape_io(t1).unwrap().0),
                Tape::spec_seq(Tape::spec_sum(tape_view(t1), tape_view(t2)), merge_poly_spec(tape_io(t1).unwrap().1)),
            ),
    {
        let (p1_in, q1_out) = match t1.io_types() {
            Some(io) => io,
            None => {
                proof {
                    assert(false);
                }
                return Tape::IdZero;
            },
        };
        let ghost iv = p1_in@;
        let ghost ov = q1_out@;
        let p = Polynomial::from_monomials(p1_in);
        let q = Polynomial::from_monomials(q1_out);
        proof {
            lemma_view_terms(p);
            lemma_view_terms(q);
        }
        let split: Tape<S, G> = split_poly(&p);
        let join: Tape<S, G> = merge_poly(&q);
        let ghost v1 = t1;
        let ghost v2 = t2;
        proof {
            lemma_view_tape_sum(t1, t2);
        }
        let both = Tape::sum(t1, t2);
        proof {
            lemma_view_tape_seq(both, join);
            lemma_view_tape_seq(split, Tape::spec_seq(both, join));
        }
        Tape::seq(split, Tape::seq(both, join))
    }

    /// The Kleene star of a tape from `U` to `U`: the tape summed with the
    /// identity, merged and split again, traced around `U`.
    pub fn kleene(tape: Tape<S, G>) -> (r: Tape<S, G>)
        requires
            tape_io(tape) is Some,
            tape_io(tape).unwrap().0.len() == 1,
            tape_io(tape).unwrap().1.len() == 1,
        ensures
            ({
                let u = tape_io(tape).unwrap().0[0];
                tape_view(r) == Tape::Trace {
                    around: u,
                    tape: Box::new(
                        Tape::spec_seq(
                            Tape::spec_sum(tape_view(tape), Tape::Id(u)),
                            Tape::spec_seq(Tape::Merge(u), Tape::Split(u)),
                        ),
                    ),
                }
            }),
    {
        let (inputs, _outputs) = match tape.io_types() {
            Some(io) => io,
            None => {
                proof {
                    assert(false);
                }
                return Tape::IdZero;
            },
        };
        let u = inputs[0].duplicate();
        proof {
            assert(monomial_views(inputs@)[0] == monomial_view(inputs@[0]));
        }
        let id_u: Tape<S, G> = Tape::Id(u.duplicate());
        proof {
            lemma_view_tape_sum(tape, id_u);
        }
        let sum = Tape::sum(tape, id_u);
        let merge: Tape<S, G> = Tape::Merge(u.duplicate());
        let split: Tape<S, G> = Tape::Split(u.duplicate());
        proof {
            lemma_view_tape_seq(merge, split);
        }
        let merge_split: Tape<S, G> = Tape::seq(merge, split);
        proof {
            lemma_view_tape_seq(sum, merge_split);
        }
        let body = Tape::seq(sum, merge_split);
        Tape::Trace { around: u, tape: Box::new(body) }
    }
}

} // verus!
