//! Equality of the tape language's terms. Two monomials are equal when they
//! have the same sorts, left to right, whatever the nesting of their
//! products; polynomials, circuits and tapes are equal when they have the
//! same shape with equal parts in corresponding places.

use vstd::prelude::*;
use vstd::std_specs::cmp::{PartialEqSpec, PartialEqSpecImpl};

use super::circuit::{circuit_view, Circuit};
use super::tape::Tape;
use super::{monomial_equals, Monomial, Polynomial};
use crate::label::Label;

verus! {

impl<S: Label> PartialEq for Monomial<S> {
    fn eq(&self, other: &Self) -> (r: bool) {
        monomial_equals(self, other)
    }
}

impl<S: Label> PartialEqSpecImpl for Monomial<S> {
    open spec fn obeys_eq_spec() -> bool {
        true
    }

    open spec fn eq_spec(&self, other: &Self) -> bool {
        self.deep_view().sorts() == other.deep_view().sorts()
    }
}

impl<S: Label> Eq for Monomial<S> {
}

/// Monomial equality does not see how products nest: `(a * b) * c` equals
/// `a * (b * c)`.
pub proof fn law_monomial_eq_reassociates<S: Label>(a: Monomial<S>, b: Monomial<S>, c: Monomial<S>)
    ensures
        PartialEqSpec::eq_spec(
            &Monomial::Product(Box::new(Monomial::Product(Box::new(a), Box::new(b))), Box::new(c)),
            &Monomial::Product(Box::new(a), Box::new(Monomial::Product(Box::new(b), Box::new(c)))),
        ),
{
    let x = Monomial::Product(Box::new(Monomial::Product(Box::new(a), Box::new(b))), Box::new(c));
    let y = Monomial::Product(Box::new(a), Box::new(Monomial::Product(Box::new(b), Box::new(c))));
    super::lemma_view_sorts(x);
    super::lemma_view_sorts(y);
    super::lemma_view_sorts(a);
    super::lemma_view_sorts(b);
    super::lemma_view_sorts(c);
    let ab = Monomial::Product(Box::new(a), Box::new(b));
    let bc = Monomial::Product(Box::new(b), Box::new(c));
    assert(ab.sorts() == a.sorts() + b.sorts());
    assert(bc.sorts() == b.sorts() + c.sorts());
    assert(x.sorts() == ab.sorts() + c.sorts());
    assert(y.sorts() == a.sorts() + bc.sorts());
    assert(x.sorts() =~= y.sorts());
}

/// Monomial equality does not see `One` factors: `1 * a` and `a * 1` equal
/// `a`.
pub proof fn law_monomial_eq_drops_one<S: Label>(a: Monomial<S>)
    ensures
        PartialEqSpec::eq_spec(&Monomial::Product(Box::new(Monomial::One), Box::new(a)), &a),
        PartialEqSpec::eq_spec(&Monomial::Product(Box::new(a), Box::new(Monomial::One)), &a),
{
    let x = Monomial::Product(Box::new(Monomial::One), Box::new(a));
    let y = Monomial::Product(Box::new(a), Box::new(Monomial::<S>::One));
    super::lemma_view_sorts(x);
    super::lemma_view_sorts(y);
    super::lemma_view_sorts(a);
    assert(Monomial::<S>::One.sorts() =~= Seq::<S>::empty());
    assert(x.sorts() == Monomial::<S>::One.sorts() + a.sorts());
    assert(y.sorts() == a.sorts() + Monomial::<S>::One.sorts());
    assert(x.sorts() =~= a.sorts());
    assert(y.sorts() =~= a.sorts());
}

/// Polynomials are equal when they have the same shape and equal monomials
/// in corresponding places.
pub open spec fn polynomial_eq<S: DeepView>(a: Polynomial<S>, b: Polynomial<S>) -> bool
    decreases a,
{
    match a {
        Polynomial::Zero => b is Zero,
        Polynomial::Monomial(x) => match b {
            Polynomial::Monomial(y) => x.deep_view().sorts() == y.deep_view().sorts(),
            _ => false,
        },
        Polynomial::Sum(al, ar) => match b {
            Polynomial::Sum(bl, br) => polynomial_eq(*al, *bl) && polynomial_eq(*ar, *br),
            _ => false,
        },
    }
}

fn polynomial_equals<S: Label>(a: &Polynomial<S>, b: &Polynomial<S>) -> (r: bool)
    ensures
        r == polynomial_eq(*a, *b),
    decreases a,
{
    match a {
        Polynomial::Zero => match b {
            Polynomial::Zero => true,
            _ => false,
        },
        Polynomial::Monomial(x) => match b {
            Polynomial::Monomial(y) => monomial_equals(x, y),
            _ => false,
        },
        Polynomial::Sum(al, ar) => match b {
            Polynomial::Sum(bl, br) => {
                if !polynomial_equals(al, bl) {
                    return false;
                }
                polynomial_equals(ar, br)
            },
            _ => false,
        },
    }
}

impl<S: Label> PartialEq for Polynomial<S> {
    fn eq(&self, other: &Self) -> (r: bool) {
        polynomial_equals(self, other)
    }
}

impl<S: Label> PartialEqSpecImpl for Polynomial<S> {
    open spec fn obeys_eq_spec() -> bool {
        true
    }

    open spec fn eq_spec(&self, other: &Self) -> bool {
        polynomial_eq(*self, *other)
    }
}

impl<S: Label> Eq for Polynomial<S> {
}

impl<S: Label, G: Label> PartialEq for Circuit<S, G> {
    fn eq(&self, other: &Self) -> (r: bool) {
        self.same(other)
    }
}

impl<S: Label, G: Label> PartialEqSpecImpl for Circuit<S, G> {
    open spec fn obeys_eq_spec() -> bool {
        true
    }

    open spec fn eq_spec(&self, other: &Self) -> bool {
        self.deep_view() == other.deep_view()
    }
}

impl<S: Label, G: Label> Eq for Circuit<S, G> {
}

/// Two monomials with the same sorts.
pub open spec fn same_sorts<S: DeepView>(a: Monomial<S>, b: Monomial<S>) -> bool {
    a.deep_view().sorts() == b.deep_view().sorts()
}

/// Tapes are equal when they have the same shape, monomials with the same
/// sorts and equal circuits in corresponding places.
pub open spec fn tape_eq<S: DeepView, G: DeepView>(a: Tape<S, G>, b: Tape<S, G>) -> bool
    decreases a,
{
    match a {
        Tape::Id(x) => b matches Tape::Id(y) && same_sorts(x, y),
        Tape::IdZero => b is IdZero,
        Tape::EmbedCircuit(x) => b matches Tape::EmbedCircuit(y) && circuit_view(*x) == circuit_view(*y),
        Tape::Swap { left: al, right: ar } => b matches Tape::Swap { left: bl, right: br }
            && same_sorts(al, bl) && same_sorts(ar, br),
        Tape::Trace { around: x, tape: at } => b matches Tape::Trace { around: y, tape: bt }
            && same_sorts(x, y) && tape_eq(*at, *bt),
        Tape::Sequence(al, ar) => b matches Tape::Sequence(bl, br) && tape_eq(*al, *bl) && tape_eq(*ar, *br),
        Tape::Product(al, ar) => b matches Tape::Product(bl, br) && tape_eq(*al, *bl) && tape_eq(*ar, *br),
        Tape::Sum(al, ar) => b matches Tape::Sum(bl, br) && tape_eq(*al, *bl) && tape_eq(*ar, *br),
        Tape::Discard(x) => b matches Tape::Discard(y) && same_sorts(x, y),
        Tape::Split(x) => b matches Tape::Split(y) && same_sorts(x, y),
        Tape::Create(x) => b matches Tape::Create(y) && same_sorts(x, y),
        Tape::Merge(x) => b matches Tape::Merge(y) && same_sorts(x, y),
    }
}

fn tapes_equal<S: Label, G: Label>(a: &Tape<S, G>, b: &Tape<S, G>) -> (r: bool)
    ensures
        r == tape_eq(*a, *b),
    decreases a,
{
    match a {
        Tape::Id(x) => match b {
            Tape::Id(y) => monomial_equals(x, y),
            _ => false,
        },
        Tape::IdZero => match b {
            Tape::IdZero => true,
            _ => false,
        },
        Tape::EmbedCircuit(x) => match b {
            Tape::EmbedCircuit(y) => x.same(y),
            _ => false,
        },
        Tape::Swap { left: al, right: ar } => match b {
            Tape::Swap { left: bl, right: br } => monomial_equals(al, bl) && monomial_equals(ar, br),
            _ => false,
        },
        Tape::Trace { around: x, tape: at } => match b {
            Tape::Trace { around: y, tape: bt } => monomial_equals(x, y) && tapes_equal(at, bt),
            _ => false,
        },
        Tape::Sequence(al, ar) => match b {
            Tape::Sequence(bl, br) => tapes_equal(al, bl) && tapes_equal(ar, br),
            _ => false,
        },
        Tape::Product(al, ar) => match b {
            Tape::Product(bl, br) => tapes_equal(al, bl) && tapes_equal(ar, br),
            _ => false,
        },
        Tape::Sum(al, ar) => match b {
            Tape::Sum(bl, br) => tapes_equal(al, bl) && tapes_equal(ar, br),
            _ => false,
        },
        Tape::Discard(x) => match b {
            Tape::Discard(y) => monomial_equals(x, y),
            _ => false,
        },
        Tape::Split(x) => match b {
            Tape::Split(y) => monomial_equals(x, y),
            _ => false,
        },
        Tape::Create(x) => match b {
            Tape::Create(y) => monomial_equals(x, y),
            _ => false,
        },
        Tape::Merge(x) => match b {
            Tape::Merge(y) => monomial_equals(x, y),
            _ => false,
        },
    }
}

impl<S: Label, G: Label> PartialEq for Tape<S, G> {
    fn eq(&self, other: &Self) -> (r: bool) {
        tapes_equal(self, other)
    }
}

impl<S: Label, G: Label> PartialEqSpecImpl for Tape<S, G> {
    open spec fn obeys_eq_spec() -> bool {
        true
    }

    open spec fn eq_spec(&self, other: &Self) -> bool {
        tape_eq(*self, *other)
    }
}

impl<S: Label, G: Label> Eq for Tape<S, G> {
}

} // verus!
