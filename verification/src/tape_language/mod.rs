//! The tape language: monomials and polynomials of sorts, circuits over a
//! monoidal product, and tapes over sums of products.

use vstd::prelude::*;

use crate::label::{all_equal, Label};

pub mod builders;
pub mod circuit;
pub mod circuit_laws;
pub mod distributors;
pub mod drawing;
pub mod lax_graph;
pub mod monomial_tape;
pub mod tape;
pub mod text;
pub mod validate;
pub mod whisk;
mod equality;

pub use circuit::Circuit;
pub use distributors::{inverse_left_distributor, left_distributor, swap_poly};
pub use tape::Tape;
pub use whisk::Whisker;

verus! {

/// Number of input and output wires of a generator.
pub trait GeneratorShape {
    spec fn spec_arity(&self) -> nat;

    spec fn spec_coarity(&self) -> nat;

    fn arity(&self) -> (r: usize)
        ensures
            r == self.spec_arity(),
    ;

    fn coarity(&self) -> (r: usize)
        ensures
            r == self.spec_coarity(),
    ;
}

/// Sorts of the input and output wires of a generator, when known.
pub trait GeneratorTypes<S: DeepView> {
    spec fn spec_input_types(&self) -> Option<Seq<S::V>>;

    spec fn spec_output_types(&self) -> Option<Seq<S::V>>;

    fn input_types(&self) -> (r: Option<Vec<S>>)
        ensures
            r.deep_view() == self.spec_input_types(),
    ;

    fn output_types(&self) -> (r: Option<Vec<S>>)
        ensures
            r.deep_view() == self.spec_output_types(),
    ;
}

/// A product of sorts; `One` is the empty product.
#[derive(Debug, Hash)]
pub enum Monomial<S> {
    One,
    Atom(S),
    Product(Box<Monomial<S>>, Box<Monomial<S>>),
}

/// The deep view of a monomial: the same shape over the sorts' views.
pub open spec fn monomial_view<S: DeepView>(m: Monomial<S>) -> Monomial<S::V>
    decreases m,
{
    match m {
        Monomial::One => Monomial::One,
        Monomial::Atom(s) => Monomial::Atom(s.deep_view()),
        Monomial::Product(l, r) => Monomial::Product(
            Box::new(monomial_view(*l)),
            Box::new(monomial_view(*r)),
        ),
    }
}

impl<S: DeepView> DeepView for Monomial<S> {
    type V = Monomial<S::V>;

    open spec fn deep_view(&self) -> Monomial<S::V> {
        monomial_view(*self)
    }
}

/// Views of a sequence of labels.
pub open spec fn views<S: DeepView>(s: Seq<S>) -> Seq<S::V> {
    s.map_values(|x: S| x.deep_view())
}

impl<S> Monomial<S> {
    /// The sorts of a monomial, left to right; products are associative and
    /// `One` is their unit, so this is what a monomial denotes.
    pub open spec fn sorts(self) -> Seq<S>
        decreases self,
    {
        match self {
            Monomial::One => Seq::empty(),
            Monomial::Atom(s) => seq![s],
            Monomial::Product(l, r) => l.sorts() + r.sorts(),
        }
    }

    /// The product of two monomials with `One` absorbed.
    pub open spec fn spec_product(left: Monomial<S>, right: Monomial<S>) -> Monomial<S> {
        if left is One {
            right
        } else if right is One {
            left
        } else {
            Monomial::Product(Box::new(left), Box::new(right))
        }
    }

    /// The monomial folded from a sequence of sorts, starting from `One`.
    pub open spec fn spec_from_sorts(sorts: Seq<S>) -> Monomial<S>
        decreases sorts.len(),
    {
        if sorts.len() == 0 {
            Monomial::One
        } else {
            Monomial::spec_product(
                Monomial::spec_from_sorts(sorts.drop_last()),
                Monomial::Atom(sorts.last()),
            )
        }
    }
}

/// The sorts of a product are the sorts of its factors.
pub proof fn lemma_product_sorts<S>(left: Monomial<S>, right: Monomial<S>)
    ensures
        Monomial::spec_product(left, right).sorts() == left.sorts() + right.sorts(),
{
    if left is One {
        assert(left.sorts() + right.sorts() =~= right.sorts());
    } else if right is One {
        assert(left.sorts() + right.sorts() =~= left.sorts());
    }
}

/// Folding sorts into a monomial gives back the sorts.
pub proof fn lemma_from_sorts_sorts<S>(sorts: Seq<S>)
    ensures
        Monomial::spec_from_sorts(sorts).sorts() == sorts,
    decreases sorts.len(),
{
    if sorts.len() > 0 {
        lemma_from_sorts_sorts(sorts.drop_last());
        lemma_product_sorts(Monomial::spec_from_sorts(sorts.drop_last()), Monomial::Atom(sorts.last()));
        assert(sorts.drop_last() + seq![sorts.last()] =~= sorts);
    }
}

/// Taking deep views commutes with flattening.
pub proof fn lemma_view_sorts<S: DeepView>(m: Monomial<S>)
    ensures
        monomial_view(m).sorts() == views(m.sorts()),
    decreases m,
{
    match m {
        Monomial::One => {
            assert(views(m.sorts()) =~= Seq::<S::V>::empty());
        },
        Monomial::Atom(s) => {
            assert(views(m.sorts()) =~= seq![s.deep_view()]);
        },
        Monomial::Product(l, r) => {
            lemma_view_sorts(*l);
            lemma_view_sorts(*r);
            assert(views(l.sorts() + r.sorts()) =~= views(l.sorts()) + views(r.sorts()));
        },
    }
}

/// Taking deep views commutes with the unit-absorbing product.
pub proof fn lemma_view_product<S: DeepView>(left: Monomial<S>, right: Monomial<S>)
    ensures
        monomial_view(Monomial::spec_product(left, right)) == Monomial::spec_product(
            monomial_view(left),
            monomial_view(right),
        ),
{
}

/// Taking deep views commutes with folding sorts.
pub proof fn lemma_view_from_sorts<S: DeepView>(sorts: Seq<S>)
    ensures
        monomial_view(Monomial::spec_from_sorts(sorts)) == Monomial::spec_from_sorts(views(sorts)),
    decreases sorts.len(),
{
    if sorts.len() > 0 {
        lemma_view_from_sorts(sorts.drop_last());
        lemma_view_product(Monomial::spec_from_sorts(sorts.drop_last()), Monomial::Atom(sorts.last()));
        assert(views(sorts).drop_last() =~= views(sorts.drop_last()));
    }
}

impl<S> Monomial<S> {
    pub fn one() -> (r: Self)
        ensures
            r == Monomial::<S>::One,
    {
        Monomial::One
    }

    pub fn atom(sort: S) -> (r: Self)
        ensures
            r == Monomial::Atom(sort),
    {
        Monomial::Atom(sort)
    }

    /// The product of two monomials; a `One` factor is dropped.
    pub fn product(left: Monomial<S>, right: Monomial<S>) -> (r: Self)
        ensures
            r == Monomial::spec_product(left, right),
            r.sorts() == left.sorts() + right.sorts(),
    {
        proof {
            lemma_product_sorts(left, right);
        }
        match left {
            Monomial::One => right,
            _ => match right {
                Monomial::One => left,
                _ => Monomial::Product(Box::new(left), Box::new(right)),
            },
        }
    }

    /// The number of sorts in the monomial.
    pub fn len(&self) -> (r: usize)
        requires
            self.sorts().len() <= usize::MAX,
        ensures
            r == self.sorts().len(),
        decreases self,
    {
        match self {
            Monomial::One => 0,
            Monomial::Atom(_) => 1,
            Monomial::Product(left, right) => left.len() + right.len(),
        }
    }

    /// Folds sorts into a monomial from the left, starting from `One`.
    pub fn from_sorts(sorts: Vec<S>) -> (r: Self)
        ensures
            r == Monomial::spec_from_sorts(sorts@),
            r.sorts() == sorts@,
    {
        let mut sorts = sorts;
        let ghost all = sorts@;
        let mut acc = Monomial::One;
        let ghost mut i: int = 0;
        while sorts.len() > 0
            invariant
                0 <= i <= all.len(),
                sorts@ == all.subrange(i, all.len() as int),
                acc == Monomial::spec_from_sorts(all.subrange(0, i)),
            decreases sorts.len(),
        {
            let x = sorts.remove(0);
            proof {
                assert(all.subrange(0, i + 1).drop_last() =~= all.subrange(0, i));
                assert(all.subrange(0, i + 1).last() == x);
                assert(sorts@ =~= all.subrange(i + 1, all.len() as int));
            }
            acc = Monomial::product(acc, Monomial::Atom(x));
            proof {
                i = i + 1;
            }
        }
        proof {
            assert(all.subrange(0, all.len() as int) =~= all);
            lemma_from_sorts_sorts(all);
        }
        acc
    }
}


/// Sorts of context entries, names dropped.
pub open spec fn entry_sorts<S>(entries: Seq<(String, S)>) -> Seq<S> {
    entries.map_values(|e: (String, S)| e.1)
}

impl<S: Label> Monomial<S> {
    /// A copy of this monomial.
    pub fn duplicate(&self) -> (r: Self)
        ensures
            r.deep_view() == self.deep_view(),
        decreases self,
    {
        match self {
            Monomial::One => Monomial::One,
            Monomial::Atom(s) => Monomial::Atom(s.duplicate()),
            Monomial::Product(l, r) => Monomial::Product(Box::new(l.duplicate()), Box::new(r.duplicate())),
        }
    }

    /// Copies of the sorts of the monomial, left to right.
    pub fn sorts_vec(&self) -> (r: Vec<S>)
        ensures
            r.deep_view() == views(self.sorts()),
        decreases self,
    {
        match self {
            Monomial::One => {
                let r: Vec<S> = Vec::new();
                proof {
                    assert(r.deep_view() =~= views(self.sorts()));
                }
                r
            },
            Monomial::Atom(s) => {
                let mut r: Vec<S> = Vec::new();
                r.push(s.duplicate());
                proof {
                    assert(r.deep_view() =~= views(self.sorts()));
                }
                r
            },
            Monomial::Product(l, r) => {
                let mut a = l.sorts_vec();
                let mut b = r.sorts_vec();
                a.append(&mut b);
                proof {
                    assert(views(l.sorts() + r.sorts()) =~= views(l.sorts()) + views(r.sorts()));
                    assert(a.deep_view() =~= views(self.sorts()));
                }
                a
            },
        }
    }

    /// Builds a monomial from context entries; entry names are discarded.
    pub fn from_context(entries: &[(String, S)]) -> (r: Self)
        ensures
            r.deep_view() == Monomial::spec_from_sorts(views(entry_sorts(entries@))),
            r.deep_view().sorts() == views(entry_sorts(entries@)),
    {
        let mut sorts: Vec<S> = Vec::new();
        let mut i: usize = 0;
        while i < entries.len()
            invariant
                i <= entries@.len(),
                sorts@.len() == i,
                forall|k: int| 0 <= k < i ==> #[trigger] sorts@[k].deep_view() == entries@[k].1.deep_view(),
            decreases entries@.len() - i,
        {
            sorts.push(entries[i].1.duplicate());
            i = i + 1;
        }
        proof {
            assert(sorts.deep_view() =~= views(entry_sorts(entries@)));
        }
        let ghost sv = sorts@;
        let r = Monomial::from_sorts(sorts);
        proof {
            lemma_view_from_sorts(sv);
            assert(views(sv) =~= sorts.deep_view());
            lemma_from_sorts_sorts(views(sv));
        }
        r
    }
}

/// Decides whether two monomials have the same sorts, compared by view.
pub fn monomial_equals<S: Label>(a: &Monomial<S>, b: &Monomial<S>) -> (r: bool)
    ensures
        r == (a.deep_view().sorts() == b.deep_view().sorts()),
{
    let x = a.sorts_vec();
    let y = b.sorts_vec();
    proof {
        lemma_view_sorts(*a);
        lemma_view_sorts(*b);
    }
    all_equal(&x, &y)
}

/// A sum of monomials; `Zero` is the empty sum.
#[derive(Debug, Hash)]
pub enum Polynomial<S> {
    Zero,
    Monomial(Monomial<S>),
    Sum(Box<Polynomial<S>>, Box<Polynomial<S>>),
}

/// The deep view of a polynomial.
pub open spec fn polynomial_view<S: DeepView>(p: Polynomial<S>) -> Polynomial<S::V>
    decreases p,
{
    match p {
        Polynomial::Zero => Polynomial::Zero,
        Polynomial::Monomial(m) => Polynomial::Monomial(monomial_view(m)),
        Polynomial::Sum(l, r) => Polynomial::Sum(
            Box::new(polynomial_view(*l)),
            Box::new(polynomial_view(*r)),
        ),
    }
}

impl<S: DeepView> DeepView for Polynomial<S> {
    type V = Polynomial<S::V>;

    open spec fn deep_view(&self) -> Polynomial<S::V> {
        polynomial_view(*self)
    }
}

/// Views of a sequence of monomials.
pub open spec fn monomial_views<S: DeepView>(s: Seq<Monomial<S>>) -> Seq<Monomial<S::V>> {
    s.map_values(|m: Monomial<S>| monomial_view(m))
}

impl<S> Polynomial<S> {
    /// The monomial terms of a polynomial, left to right.
    pub open spec fn terms(self) -> Seq<Monomial<S>>
        decreases self,
    {
        match self {
            Polynomial::Zero => Seq::empty(),
            Polynomial::Monomial(m) => seq![m],
            Polynomial::Sum(l, r) => l.terms() + r.terms(),
        }
    }

    /// The sum of two polynomials with `Zero` absorbed.
    pub open spec fn spec_sum(left: Polynomial<S>, right: Polynomial<S>) -> Polynomial<S> {
        if left is Zero {
            right
        } else if right is Zero {
            left
        } else {
            Polynomial::Sum(Box::new(left), Box::new(right))
        }
    }

    /// The polynomial folded from a sequence of terms, starting from `Zero`.
    pub open spec fn spec_from_terms(terms: Seq<Monomial<S>>) -> Polynomial<S>
        decreases terms.len(),
    {
        if terms.len() == 0 {
            Polynomial::Zero
        } else {
            Polynomial::spec_sum(
                Polynomial::spec_from_terms(terms.drop_last()),
                Polynomial::Monomial(terms.last()),
            )
        }
    }

    /// The products of every term of `left` with every term of `right`, in
    /// the order of the terms of `left`, then of `right`.
    pub open spec fn product_terms(left: Seq<Monomial<S>>, right: Seq<Monomial<S>>) -> Seq<Monomial<S>>
        decreases left.len(),
    {
        if left.len() == 0 {
            Seq::empty()
        } else {
            Polynomial::product_terms(left.drop_last(), right) + right.map_values(
                |b: Monomial<S>| Monomial::spec_product(left.last(), b),
            )
        }
    }

    /// The product of two polynomials, distributed term by term.
    pub open spec fn spec_product(left: Polynomial<S>, right: Polynomial<S>) -> Polynomial<S> {
        Polynomial::spec_from_terms(Polynomial::product_terms(left.terms(), right.terms()))
    }
}

/// The terms of a sum are the terms of its summands.
pub proof fn lemma_sum_terms<S>(left: Polynomial<S>, right: Polynomial<S>)
    ensures
        Polynomial::spec_sum(left, right).terms() == left.terms() + right.terms(),
{
    if left is Zero {
        assert(left.terms() + right.terms() =~= right.terms());
    } else if right is Zero {
        assert(left.terms() + right.terms() =~= left.terms());
    }
}

/// Folding terms into a polynomial gives back the terms.
pub proof fn lemma_from_terms_terms<S>(terms: Seq<Monomial<S>>)
    ensures
        Polynomial::spec_from_terms(terms).terms() == terms,
    decreases terms.len(),
{
    if terms.len() > 0 {
        lemma_from_terms_terms(terms.drop_last());
        lemma_sum_terms(Polynomial::spec_from_terms(terms.drop_last()), Polynomial::Monomial(terms.last()));
        assert(terms.drop_last() + seq![terms.last()] =~= terms);
    }
}

/// Taking deep views commutes with listing terms.
pub proof fn lemma_view_terms<S: DeepView>(p: Polynomial<S>)
    ensures
        polynomial_view(p).terms() == monomial_views(p.terms()),
    decreases p,
{
    match p {
        Polynomial::Zero => {
            assert(monomial_views(p.terms()) =~= Seq::<Monomial<S::V>>::empty());
        },
        Polynomial::Monomial(m) => {
            assert(monomial_views(p.terms()) =~= seq![monomial_view(m)]);
        },
        Polynomial::Sum(l, r) => {
            lemma_view_terms(*l);
            lemma_view_terms(*r);
            assert(monomial_views(l.terms() + r.terms()) =~= monomial_views(l.terms())
                + monomial_views(r.terms()));
        },
    }
}

/// Taking deep views commutes with folding terms.
pub proof fn lemma_view_from_terms<S: DeepView>(terms: Seq<Monomial<S>>)
    ensures
        polynomial_view(Polynomial::spec_from_terms(terms)) == Polynomial::spec_from_terms(
            monomial_views(terms),
        ),
    decreases terms.len(),
{
    if terms.len() > 0 {
        lemma_view_from_terms(terms.drop_last());
        assert(monomial_views(terms).drop_last() =~= monomial_views(terms.drop_last()));
        lemma_view_sum(Polynomial::spec_from_terms(terms.drop_last()), Polynomial::Monomial(terms.last()));
    }
}

/// Taking deep views commutes with the zero-absorbing sum.
pub proof fn lemma_view_sum<S: DeepView>(left: Polynomial<S>, right: Polynomial<S>)
    ensures
        polynomial_view(Polynomial::spec_sum(left, right)) == Polynomial::spec_sum(
            polynomial_view(left),
            polynomial_view(right),
        ),
{
}

/// Taking deep views commutes with distributing a product.
pub proof fn lemma_view_product_terms<S: DeepView>(left: Seq<Monomial<S>>, right: Seq<Monomial<S>>)
    ensures
        monomial_views(Polynomial::product_terms(left, right)) == Polynomial::product_terms(
            monomial_views(left),
            monomial_views(right),
        ),
    decreases left.len(),
{
    if left.len() > 0 {
        lemma_view_product_terms(left.drop_last(), right);
        assert(monomial_views(left).drop_last() =~= monomial_views(left.drop_last()));
        let row = right.map_values(|b: Monomial<S>| Monomial::spec_product(left.last(), b));
        let vrow = monomial_views(right).map_values(
            |b: Monomial<S::V>| Monomial::spec_product(monomial_views(left).last(), b),
        );
        assert forall|k: int| 0 <= k < row.len() implies #[trigger] monomial_views(row)[k] == vrow[k] by {
            lemma_view_product(left.last(), right[k]);
        }
        assert(monomial_views(row) =~= vrow);
        assert(monomial_views(Polynomial::product_terms(left.drop_last(), right) + row)
            =~= monomial_views(Polynomial::product_terms(left.drop_last(), right)) + monomial_views(row));
    }
}

impl<S> Polynomial<S> {
    pub fn zero() -> (r: Self)
        ensures
            r == Polynomial::<S>::Zero,
    {
        Polynomial::Zero
    }

    pub fn monomial(term: Monomial<S>) -> (r: Self)
        ensures
            r == Polynomial::Monomial(term),
    {
        Polynomial::Monomial(term)
    }

    /// The sum of two polynomials; a `Zero` summand is dropped.
    pub fn sum(left: Polynomial<S>, right: Polynomial<S>) -> (r: Self)
        ensures
            r == Polynomial::spec_sum(left, right),
            r.terms() == left.terms() + right.terms(),
    {
        proof {
            lemma_sum_terms(left, right);
        }
        match left {
            Polynomial::Zero => right,
            _ => match right {
                Polynomial::Zero => left,
                _ => Polynomial::Sum(Box::new(left), Box::new(right)),
            },
        }
    }

    /// Folds monomials into a sum from the left, starting from `Zero`.
    pub fn from_monomials(monomials: Vec<Monomial<S>>) -> (r: Self)
        ensures
            r == Polynomial::spec_from_terms(monomials@),
            r.terms() == monomials@,
    {
        let mut monomials = monomials;
        let ghost all = monomials@;
        let mut acc = Polynomial::Zero;
        let ghost mut i: int = 0;
        while monomials.len() > 0
            invariant
                0 <= i <= all.len(),
                monomials@ == all.subrange(i, all.len() as int),
                acc == Polynomial::spec_from_terms(all.subrange(0, i)),
            decreases monomials.len(),
        {
            let x = monomials.remove(0);
            proof {
                assert(all.subrange(0, i + 1).drop_last() =~= all.subrange(0, i));
                assert(all.subrange(0, i + 1).last() == x);
                assert(monomials@ =~= all.subrange(i + 1, all.len() as int));
            }
            acc = Polynomial::sum(acc, Polynomial::Monomial(x));
            proof {
                i = i + 1;
            }
        }
        proof {
            assert(all.subrange(0, all.len() as int) =~= all);
            lemma_from_terms_terms(all);
        }
        acc
    }

    /// The terms of the polynomial, left to right.
    pub fn into_monomials(poly: Polynomial<S>) -> (r: Vec<Monomial<S>>)
        ensures
            r@ == poly.terms(),
        decreases poly,
    {
        match poly {
            Polynomial::Zero => Vec::new(),
            Polynomial::Monomial(term) => {
                let mut v = Vec::new();
                v.push(term);
                proof {
                    assert(v@ =~= seq![term]);
                }
                v
            },
            Polynomial::Sum(left, right) => {
                let mut terms = Polynomial::into_monomials(*left);
                let mut rest = Polynomial::into_monomials(*right);
                terms.append(&mut rest);
                terms
            },
        }
    }
}

/// Folds monomials built from lists of sorts into a sum.
pub fn polynomial_from_monomial_sorts<S>(monomials: Vec<Vec<S>>) -> (r: Polynomial<S>)
    ensures
        r == Polynomial::spec_from_terms(monomials@.map_values(|v: Vec<S>| Monomial::spec_from_sorts(v@))),
{
    let mut monomials = monomials;
    let ghost all = monomials@;
    let mut terms: Vec<Monomial<S>> = Vec::new();
    let ghost mut i: int = 0;
    while monomials.len() > 0
        invariant
            0 <= i <= all.len(),
            monomials@ == all.subrange(i, all.len() as int),
            terms@ == all.subrange(0, i).map_values(|v: Vec<S>| Monomial::spec_from_sorts(v@)),
        decreases monomials.len(),
    {
        let x = monomials.remove(0);
        proof {
            assert(monomials@ =~= all.subrange(i + 1, all.len() as int));
        }
        terms.push(Monomial::from_sorts(x));
        proof {
            i = i + 1;
            assert(terms@ =~= all.subrange(0, i).map_values(|v: Vec<S>| Monomial::spec_from_sorts(v@)));
        }
    }
    proof {
        assert(all.subrange(0, all.len() as int) =~= all);
    }
    Polynomial::from_monomials(terms)
}

impl<S: Label> Polynomial<S> {
    /// Folds monomials built from lists of sorts into a sum.
    pub fn from_monomial_sorts(monomials: Vec<Vec<S>>) -> (r: Self)
        ensures
            r == Polynomial::spec_from_terms(monomials@.map_values(|v: Vec<S>| Monomial::spec_from_sorts(v@))),
    {
        polynomial_from_monomial_sorts(monomials)
    }

    /// A copy of this polynomial.
    pub fn duplicate(&self) -> (r: Self)
        ensures
            r.deep_view() == self.deep_view(),
        decreases self,
    {
        match self {
            Polynomial::Zero => Polynomial::Zero,
            Polynomial::Monomial(m) => Polynomial::Monomial(m.duplicate()),
            Polynomial::Sum(l, r) => Polynomial::Sum(Box::new(l.duplicate()), Box::new(r.duplicate())),
        }
    }

    /// Copies of the terms of the polynomial, left to right.
    pub fn terms_vec(&self) -> (r: Vec<Monomial<S>>)
        ensures
            monomial_views(r@) == monomial_views(self.terms()),
            r@.len() == self.terms().len(),
        decreases self,
    {
        match self {
            Polynomial::Zero => {
                let r: Vec<Monomial<S>> = Vec::new();
                proof {
                    assert(monomial_views(r@) =~= monomial_views(self.terms()));
                }
                r
            },
            Polynomial::Monomial(m) => {
                let mut r: Vec<Monomial<S>> = Vec::new();
                r.push(m.duplicate());
                proof {
                    assert(monomial_views(r@) =~= monomial_views(self.terms()));
                }
                r
            },
            Polynomial::Sum(l, r) => {
                let mut a = l.terms_vec();
                let mut b = r.terms_vec();
                let ghost av = a@;
                let ghost bv = b@;
                a.append(&mut b);
                proof {
                    assert(monomial_views(av + bv) =~= monomial_views(av) + monomial_views(bv));
                    assert(monomial_views(l.terms() + r.terms()) =~= monomial_views(l.terms())
                        + monomial_views(r.terms()));
                }
                a
            },
        }
    }

    /// The product of two polynomials: every term of `left` times every term
    /// of `right`, summed in order.
    pub fn product(left: Polynomial<S>, right: Polynomial<S>) -> (r: Self)
        ensures
            r.deep_view() == Polynomial::spec_product(left.deep_view(), right.deep_view()),
    {
        let ghost lt = left.terms();
        let ghost rt = right.terms();
        let left_terms = Polynomial::into_monomials(left);
        let right_terms = Polynomial::into_monomials(right);
        proof {
            lemma_view_terms(left);
            lemma_view_terms(right);
            lemma_view_product_terms(lt, rt);
        }
        if left_terms.len() == 0 || right_terms.len() == 0 {
            proof {
                if lt.len() == 0 {
                    assert(Polynomial::product_terms(lt, rt) =~= Seq::<Monomial<S>>::empty());
                } else {
                    lemma_product_terms_empty_right(lt, rt);
                }
                lemma_view_from_terms(Polynomial::product_terms(lt, rt));
            }
            return Polynomial::Zero;
        }
        let mut acc: Polynomial<S> = Polynomial::Zero;
        let mut i: usize = 0;
        while i < left_terms.len()
            invariant
                left_terms@ == lt,
                right_terms@ == rt,
                i <= lt.len(),
                polynomial_view(acc) == Polynomial::spec_from_terms(
                    monomial_views(Polynomial::product_terms(lt.subrange(0, i as int), rt)),
                ),
            decreases lt.len() - i,
        {
            let ghost base = monomial_views(Polynomial::product_terms(lt.subrange(0, i as int), rt));
            let lhs = &left_terms[i];
            let mut j: usize = 0;
            while j < right_terms.len()
                invariant
                    left_terms@ == lt,
                    right_terms@ == rt,
                    i < lt.len(),
                    j <= rt.len(),
                    *lhs == lt[i as int],
                    polynomial_view(acc) == Polynomial::spec_from_terms(
                        base + monomial_views(rt.subrange(0, j as int).map_values(
                            |b: Monomial<S>| Monomial::spec_product(lt[i as int], b),
                        )),
                    ),
                decreases rt.len() - j,
            {
                let ghost prev = base + monomial_views(rt.subrange(0, j as int).map_values(
                    |b: Monomial<S>| Monomial::spec_product(lt[i as int], b),
                ));
                let a = lhs.duplicate();
                let b = right_terms[j].duplicate();
                let term = Monomial::product(a, b);
                proof {
                    lemma_view_product(a, b);
                    lemma_view_product(lt[i as int], rt[j as int]);
                    lemma_view_sum(acc, Polynomial::Monomial(term));
                    let next = base + monomial_views(rt.subrange(0, j + 1).map_values(
                        |b: Monomial<S>| Monomial::spec_product(lt[i as int], b),
                    ));
                    assert(next =~= prev.push(monomial_view(term)));
                    assert(next.drop_last() =~= prev);
                }
                acc = Polynomial::sum(acc, Polynomial::Monomial(term));
                j = j + 1;
            }
            proof {
                assert(rt.subrange(0, rt.len() as int) =~= rt);
                assert(lt.subrange(0, i + 1).drop_last() =~= lt.subrange(0, i as int));
                assert(monomial_views(Polynomial::product_terms(lt.subrange(0, i + 1), rt)) =~= base
                    + monomial_views(rt.map_values(|b: Monomial<S>| Monomial::spec_product(lt[i as int], b))));
            }
            i = i + 1;
        }
        proof {
            assert(lt.subrange(0, lt.len() as int) =~= lt);
            lemma_view_from_terms(Polynomial::product_terms(lt, rt));
        }
        acc
    }
}

/// Distributing over an empty right factor gives no terms.
pub proof fn lemma_product_terms_empty_right<S>(left: Seq<Monomial<S>>, right: Seq<Monomial<S>>)
    requires
        right.len() == 0,
    ensures
        Polynomial::product_terms(left, right) == Seq::<Monomial<S>>::empty(),
    decreases left.len(),
{
    if left.len() > 0 {
        lemma_product_terms_empty_right(left.drop_last(), right);
        assert(Polynomial::product_terms(left, right) =~= Seq::<Monomial<S>>::empty());
    }
}

/// Products of monomials are associative: both bracketings of three factors
/// have the same sorts.
pub proof fn law_monomial_product_associative<S>(a: Monomial<S>, b: Monomial<S>, c: Monomial<S>)
    ensures
        Monomial::spec_product(Monomial::spec_product(a, b), c).sorts() == Monomial::spec_product(
            a,
            Monomial::spec_product(b, c),
        ).sorts(),
{
    lemma_product_sorts(a, b);
    lemma_product_sorts(Monomial::spec_product(a, b), c);
    lemma_product_sorts(b, c);
    lemma_product_sorts(a, Monomial::spec_product(b, c));
    assert((a.sorts() + b.sorts()) + c.sorts() =~= a.sorts() + (b.sorts() + c.sorts()));
}

/// `One` is the unit of the monomial product, on either side.
pub proof fn law_monomial_one_is_unit<S>(a: Monomial<S>)
    ensures
        Monomial::spec_product(Monomial::One, a) == a,
        Monomial::spec_product(a, Monomial::One) == a,
{
}

/// Sums of polynomials are associative: both bracketings of three summands
/// have the same terms.
pub proof fn law_polynomial_sum_associative<S>(a: Polynomial<S>, b: Polynomial<S>, c: Polynomial<S>)
    ensures
        Polynomial::spec_sum(Polynomial::spec_sum(a, b), c).terms() == Polynomial::spec_sum(
            a,
            Polynomial::spec_sum(b, c),
        ).terms(),
{
    lemma_sum_terms(a, b);
    lemma_sum_terms(Polynomial::spec_sum(a, b), c);
    lemma_sum_terms(b, c);
    lemma_sum_terms(a, Polynomial::spec_sum(b, c));
    assert((a.terms() + b.terms()) + c.terms() =~= a.terms() + (b.terms() + c.terms()));
}

/// `Zero` is the unit of the polynomial sum, on either side.
pub proof fn law_polynomial_zero_is_unit<S>(a: Polynomial<S>)
    ensures
        Polynomial::spec_sum(Polynomial::Zero, a) == a,
        Polynomial::spec_sum(a, Polynomial::Zero) == a,
{
}

/// `Zero` annihilates the polynomial product, on either side.
pub proof fn law_polynomial_zero_annihilates<S>(a: Polynomial<S>)
    ensures
        Polynomial::spec_product(Polynomial::Zero, a) == Polynomial::<S>::Zero,
        Polynomial::spec_product(a, Polynomial::Zero) == Polynomial::<S>::Zero,
{
    assert(Polynomial::product_terms(Seq::<Monomial<S>>::empty(), a.terms()) =~= Seq::<Monomial<S>>::empty());
    lemma_product_terms_empty_right(a.terms(), Polynomial::<S>::Zero.terms());
}

/// Distributing over a left factor split in two gives the terms of each part,
/// one after the other.
pub proof fn law_product_terms_split_left<S>(l1: Seq<Monomial<S>>, l2: Seq<Monomial<S>>, r: Seq<Monomial<S>>)
    ensures
        Polynomial::product_terms(l1 + l2, r) == Polynomial::product_terms(l1, r)
            + Polynomial::product_terms(l2, r),
    decreases l2.len(),
{
    if l2.len() == 0 {
        assert(l1 + l2 =~= l1);
        assert(Polynomial::product_terms(l2, r) =~= Seq::<Monomial<S>>::empty());
        assert(Polynomial::product_terms(l1, r) + Polynomial::product_terms(l2, r)
            =~= Polynomial::product_terms(l1, r));
    } else {
        law_product_terms_split_left(l1, l2.drop_last(), r);
        assert((l1 + l2).drop_last() =~= l1 + l2.drop_last());
        assert((l1 + l2).last() == l2.last());
        let row = r.map_values(|b: Monomial<S>| Monomial::spec_product(l2.last(), b));
        assert(Polynomial::product_terms(l1 + l2, r) =~= Polynomial::product_terms(l1 + l2.drop_last(), r) + row);
        assert(Polynomial::product_terms(l2, r) =~= Polynomial::product_terms(l2.drop_last(), r) + row);
        assert(Polynomial::product_terms(l1, r) + Polynomial::product_terms(l2, r) =~= (Polynomial::product_terms(
            l1,
            r,
        ) + Polynomial::product_terms(l2.drop_last(), r)) + row);
    }
}

/// The product of two polynomials has one term for each pair of terms, the
/// term of `left` times the term of `right`, in the order of the terms of
/// `left` and then of `right`.
pub proof fn law_polynomial_product_pairs<S>(left: Polynomial<S>, right: Polynomial<S>)
    ensures
        Polynomial::spec_product(left, right).terms().len() == left.terms().len() * right.terms().len(),
        forall|i: int, j: int|
            0 <= i < left.terms().len() && 0 <= j < right.terms().len() ==> #[trigger] Polynomial::spec_product(
                left,
                right,
            ).terms()[i * right.terms().len() + j] == Monomial::spec_product(left.terms()[i], right.terms()[j]),
{
    let pt = Polynomial::product_terms(left.terms(), right.terms());
    lemma_from_terms_terms(pt);
    lemma_product_terms_pairs(left.terms(), right.terms());
}

/// Index arithmetic of `product_terms`: the row of each left term, one
/// entry per right term.
proof fn lemma_product_terms_pairs<S>(left: Seq<Monomial<S>>, right: Seq<Monomial<S>>)
    ensures
        Polynomial::product_terms(left, right).len() == left.len() * right.len(),
        forall|i: int, j: int|
            0 <= i < left.len() && 0 <= j < right.len() ==> #[trigger] Polynomial::product_terms(
                left,
                right,
            )[i * right.len() + j] == Monomial::spec_product(left[i], right[j]),
    decreases left.len(),
{
    if left.len() > 0 {
        let init = left.drop_last();
        lemma_product_terms_pairs(init, right);
        let n = right.len();
        let k = init.len();
        assert((k + 1) * n == k * n + n) by (nonlinear_arith);
        assert forall|i: int, j: int|
            0 <= i < left.len() && 0 <= j < right.len() implies #[trigger] Polynomial::product_terms(
                left,
                right,
            )[i * right.len() + j] == Monomial::spec_product(left[i], right[j]) by {
            if i < k {
                assert(i * n + j < k * n) by (nonlinear_arith)
                    requires
                        0 <= i < k,
                        0 <= j < n,
                ;
                assert(left[i] == init[i]);
            } else {
                assert(i * n == k * n);
            }
        }
    }
}

impl<S: Label> Clone for Monomial<S> {
    fn clone(&self) -> (r: Self)
        ensures
            r.deep_view() == self.deep_view(),
    {
        self.duplicate()
    }
}

impl<S: Label> Clone for Polynomial<S> {
    fn clone(&self) -> (r: Self)
        ensures
            r.deep_view() == self.deep_view(),
    {
        self.duplicate()
    }
}

impl<S> From<S> for Monomial<S> {
    fn from(sort: S) -> (r: Self) {
        Monomial::Atom(sort)
    }
}

impl<S> vstd::std_specs::convert::FromSpecImpl<S> for Monomial<S> {
    open spec fn obeys_from_spec() -> bool {
        true
    }

    open spec fn from_spec(v: S) -> Self {
        Monomial::Atom(v)
    }
}

} // verus!
