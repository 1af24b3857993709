//! Tapes built from polynomials: identities, discards and creations on
//! every term, traces, exchanges of blocks of wires, and the zero-absorbing
//! sum and sequential composition of tapes.

use vstd::prelude::*;

use super::circuit::{
    block_swap_perm, circuit_view, copy_wires_circuit, join_wires_circuit, lemma_view_seq_product, permute_circuit_spec,
    Circuit,
};
use super::tape::{
    create_poly_spec, discard_poly_spec, id_poly_spec, monomial_times, poly_sorts, split_terms, sum_all,
    sum_swaps_spec, swap_sum_blocks_spec, tape_view, Tape,
};
use super::{
    lemma_from_terms_terms, lemma_view_from_terms, lemma_view_product, lemma_view_sorts, lemma_view_terms,
    monomial_view, monomial_views, polynomial_view, views, Monomial, Polynomial,
};
use crate::label::{duplicate_all, Label};

verus! {

/// Taking deep views commutes with the zero-absorbing sum of tapes.
pub proof fn lemma_view_tape_sum<S: DeepView, G: DeepView>(a: Tape<S, G>, b: Tape<S, G>)
    ensures
        tape_view(Tape::spec_sum(a, b)) == Tape::spec_sum(tape_view(a), tape_view(b)),
{
}

/// Taking deep views commutes with sequential composition of tapes.
pub proof fn lemma_view_tape_seq<S: DeepView, G: DeepView>(a: Tape<S, G>, b: Tape<S, G>)
    ensures
        tape_view(Tape::spec_seq(a, b)) == Tape::spec_seq(tape_view(a), tape_view(b)),
{
    if a is EmbedCircuit && b is EmbedCircuit {
        lemma_view_seq_product(*a->EmbedCircuit_0, *b->EmbedCircuit_0);
    }
}

/// Summing one more tape onto a list sums it onto the sum of the list.
pub proof fn lemma_sum_all_push<T, H>(ts: Seq<Tape<T, H>>, t: Tape<T, H>)
    ensures
        sum_all(ts.push(t)) == Tape::spec_sum(sum_all(ts), t),
{
    assert(ts.push(t).drop_last() =~= ts);
}

/// The traces of a tape around the given monomials, the first innermost.
pub open spec fn traced<T, H>(around: Seq<Monomial<T>>, t: Tape<T, H>) -> Tape<T, H>
    decreases around.len(),
{
    if around.len() == 0 {
        t
    } else {
        Tape::Trace { around: around.last(), tape: Box::new(traced(around.drop_last(), t)) }
    }
}

impl<S, G> Tape<S, G> {
    /// Sum of two tapes; an `IdZero` summand is dropped.
    pub fn sum(left: Tape<S, G>, right: Tape<S, G>) -> (r: Tape<S, G>)
        ensures
            r == Tape::spec_sum(left, right),
    {
        match left {
            Tape::IdZero => right,
            _ => match right {
                Tape::IdZero => left,
                _ => Tape::Sum(Box::new(left), Box::new(right)),
            },
        }
    }

    /// Sequential composition: two `IdZero` give `IdZero`, and two embedded
    /// circuits are composed inside one embedding.
    pub fn seq(left: Tape<S, G>, right: Tape<S, G>) -> (r: Tape<S, G>)
        ensures
            r == Tape::spec_seq(left, right),
    {
        match left {
            Tape::IdZero => match right {
                Tape::IdZero => Tape::IdZero,
                _ => Tape::Sequence(Box::new(Tape::IdZero), Box::new(right)),
            },
            Tape::EmbedCircuit(l) => match right {
                Tape::EmbedCircuit(r) => Tape::EmbedCircuit(Box::new(Circuit::seq(*l, *r))),
                _ => Tape::Sequence(Box::new(Tape::EmbedCircuit(l)), Box::new(right)),
            },
            _ => Tape::Sequence(Box::new(left), Box::new(right)),
        }
    }
}

/// The first term of a polynomial, and the sum of the remaining terms.
pub fn split_polynomial<S: Label>(poly: &Polynomial<S>) -> (r: (Option<Monomial<S>>, Polynomial<S>))
    ensures
        match r.0 {
            None => polynomial_view(*poly).terms().len() == 0 && r.1 is Zero,
            Some(head) => polynomial_view(*poly).terms().len() > 0 && monomial_view(head)
                == polynomial_view(*poly).terms()[0] && polynomial_view(r.1) == Polynomial::spec_from_terms(
                polynomial_view(*poly).terms().drop_first(),
            ),
        },
        (split_terms(polynomial_view(*poly)).0 is None) == (r.0 is None),
        polynomial_view(r.1) == split_terms(polynomial_view(*poly)).1,
{
    proof {
        lemma_view_terms(*poly);
    }
    let mut terms = poly.terms_vec();
    if terms.len() == 0 {
        return (None, Polynomial::Zero);
    }
    let ghost all = terms@;
    let head = terms.remove(0);
    proof {
        assert(monomial_views(terms@) =~= monomial_views(all).drop_first());
        lemma_view_from_terms(terms@);
    }
    let rest = Polynomial::from_monomials(terms);
    (Some(head), rest)
}

/// The product of a monomial with every term of a polynomial.
pub fn monomial_times_poly<S: Label>(mono: &Monomial<S>, poly: &Polynomial<S>) -> (r: Polynomial<S>)
    ensures
        polynomial_view(r) == monomial_times(monomial_view(*mono), polynomial_view(*poly)),
{
    proof {
        lemma_view_terms(*poly);
    }
    let terms = poly.terms_vec();
    let ghost vt = polynomial_view(*poly).terms();
    let mut out: Vec<Monomial<S>> = Vec::new();
    let mut i: usize = 0;
    while i < terms.len()
        invariant
            i <= terms@.len(),
            monomial_views(terms@) == vt,
            monomial_views(out@) == vt.subrange(0, i as int).map_values(
                |t: Monomial<S::V>| Monomial::spec_product(monomial_view(*mono), t),
            ),
        decreases terms@.len() - i,
    {
        let a = mono.duplicate();
        let b = terms[i].duplicate();
        proof {
            lemma_view_product(a, b);
            assert(monomial_views(terms@)[i as int] == monomial_view(terms@[i as int]));
        }
        let ghost before = out@;
        out.push(Monomial::product(a, b));
        proof {
            assert(monomial_views(out@) =~= monomial_views(before).push(
                Monomial::spec_product(monomial_view(*mono), vt[i as int]),
            ));
            assert(vt.subrange(0, i + 1).map_values(
                |t: Monomial<S::V>| Monomial::spec_product(monomial_view(*mono), t),
            ) =~= vt.subrange(0, i as int).map_values(
                |t: Monomial<S::V>| Monomial::spec_product(monomial_view(*mono), t),
            ).push(Monomial::spec_product(monomial_view(*mono), vt[i as int])));
        }
        i = i + 1;
    }
    proof {
        assert(vt.subrange(0, vt.len() as int) =~= vt);
        lemma_view_from_terms(out@);
    }
    Polynomial::from_monomials(out)
}

/// The sorts of all the terms of a polynomial, term after term.
pub fn polynomial_atom_sorts<S: Label>(poly: &Polynomial<S>) -> (r: Vec<S>)
    ensures
        r.deep_view() == poly_sorts(polynomial_view(*poly).terms()),
{
    proof {
        lemma_view_terms(*poly);
    }
    let terms = poly.terms_vec();
    let ghost vt = polynomial_view(*poly).terms();
    let mut out: Vec<S> = Vec::new();
    let mut i: usize = 0;
    while i < terms.len()
        invariant
            i <= terms@.len(),
            monomial_views(terms@) == vt,
            out.deep_view() == poly_sorts(vt.subrange(0, i as int)),
        decreases terms@.len() - i,
    {
        let mut sorts = terms[i].sorts_vec();
        proof {
            lemma_view_sorts(terms@[i as int]);
            assert(monomial_views(terms@)[i as int] == monomial_view(terms@[i as int]));
            assert(vt.subrange(0, i + 1).drop_last() =~= vt.subrange(0, i as int));
        }
        let ghost before = out@;
        let ghost added = sorts@;
        out.append(&mut sorts);
        proof {
            assert(out.deep_view() =~= views(before) + views(added));
        }
        i = i + 1;
    }
    proof {
        assert(vt.subrange(0, vt.len() as int) =~= vt);
    }
    out
}

/// Every sort of a monomial as a monomial of its own, left to right.
pub fn monomial_atoms<S: Label>(monomial: &Monomial<S>) -> (r: Vec<Monomial<S>>)
    ensures
        monomial_views(r@) == monomial_view(*monomial).sorts().map_values(|s: S::V| Monomial::Atom(s)),
{
    let sorts = monomial.sorts_vec();
    proof {
        lemma_view_sorts(*monomial);
    }
    let ghost vs = monomial_view(*monomial).sorts();
    let mut out: Vec<Monomial<S>> = Vec::new();
    let mut i: usize = 0;
    while i < sorts.len()
        invariant
            i <= sorts@.len(),
            sorts.deep_view() == vs,
            monomial_views(out@) == vs.subrange(0, i as int).map_values(|s: S::V| Monomial::Atom(s)),
        decreases sorts@.len() - i,
    {
        let s = sorts[i].duplicate();
        proof {
            assert(sorts.deep_view()[i as int] == sorts@[i as int].deep_view());
        }
        let ghost before = out@;
        out.push(Monomial::Atom(s));
        proof {
            assert(monomial_views(out@) =~= monomial_views(before).push(Monomial::Atom(vs[i as int])));
            assert(vs.subrange(0, i + 1).map_values(|s: S::V| Monomial::Atom(s)) =~= vs.subrange(
                0,
                i as int,
            ).map_values(|s: S::V| Monomial::Atom(s)).push(Monomial::Atom(vs[i as int])));
        }
        i = i + 1;
    }
    proof {
        assert(vs.subrange(0, vs.len() as int) =~= vs);
    }
    out
}

/// Exchanges the wires of all terms of `left` with those of all terms of
/// `right`, as one embedded circuit.
pub fn swap_sum_blocks<S: Label, G: DeepView>(left: &Polynomial<S>, right: &Polynomial<S>) -> (r: Tape<S, G>)
    ensures
        tape_view(r) == swap_sum_blocks_spec::<S::V, G::V>(polynomial_view(*left), polynomial_view(*right)),
{
    let left_types = polynomial_atom_sorts(left);
    let right_types = polynomial_atom_sorts(right);
    proof {
        assert(views(left_types@) =~= left_types.deep_view());
        assert(views(right_types@) =~= right_types.deep_view());
    }
    let c: Circuit<S, G> = Circuit::swap_blocks(left_types.as_slice(), right_types.as_slice());
    Tape::EmbedCircuit(Box::new(c))
}

/// For every term of `poly`, the exchange of its wires with those of
/// `right`, summed.
pub fn sum_swaps<S: Label, G: DeepView>(poly: &Polynomial<S>, right: &Monomial<S>) -> (r: Tape<S, G>)
    ensures
        tape_view(r) == sum_swaps_spec::<S::V, G::V>(polynomial_view(*poly), monomial_view(*right)),
{
    proof {
        lemma_view_terms(*poly);
        lemma_view_sorts(*right);
    }
    let terms = poly.terms_vec();
    let right_types = right.sorts_vec();
    let ghost vt = polynomial_view(*poly).terms();
    let ghost vr = monomial_view(*right);
    let mut acc: Tape<S, G> = Tape::IdZero;
    let mut i: usize = 0;
    while i < terms.len()
        invariant
            i <= terms@.len(),
            monomial_views(terms@) == vt,
            right_types.deep_view() == vr.sorts(),
            tape_view(acc) == sum_all(vt.subrange(0, i as int).map_values(
                |t: Monomial<S::V>| Tape::<S::V, G::V>::EmbedCircuit(Box::new(
                    permute_circuit_spec(t.sorts() + vr.sorts(), block_swap_perm(t.sorts().len(), vr.sorts().len())),
                )),
            )),
        decreases terms@.len() - i,
    {
        let left_types = terms[i].sorts_vec();
        proof {
            lemma_view_sorts(terms@[i as int]);
            assert(monomial_views(terms@)[i as int] == monomial_view(terms@[i as int]));
            assert(views(left_types@) =~= left_types.deep_view());
            assert(views(right_types@) =~= right_types.deep_view());
        }
        let c: Circuit<S, G> = Circuit::swap_blocks(left_types.as_slice(), right_types.as_slice());
        let swap = Tape::EmbedCircuit(Box::new(c));
        proof {
            let f = |t: Monomial<S::V>| Tape::<S::V, G::V>::EmbedCircuit(Box::new(
                permute_circuit_spec(t.sorts() + vr.sorts(), block_swap_perm(t.sorts().len(), vr.sorts().len())),
            ));
            assert(vt.subrange(0, i + 1).map_values(f) =~= vt.subrange(0, i as int).map_values(f).push(
                f(vt[i as int]),
            ));
            lemma_sum_all_push(vt.subrange(0, i as int).map_values(f), f(vt[i as int]));
            lemma_view_tape_sum(acc, swap);
        }
        acc = Tape::sum(acc, swap);
        i = i + 1;
    }
    proof {
        assert(vt.subrange(0, vt.len() as int) =~= vt);
    }
    acc
}

/// The kinds of tapes placed on a single term.
pub enum TermTape {
    Id,
    Discard,
    Create,
}

/// The tape of the given kind on one term.
pub open spec fn term_tape<T, H>(kind: TermTape, m: Monomial<T>) -> Tape<T, H> {
    match kind {
        TermTape::Id => Tape::Id(m),
        TermTape::Discard => Tape::Discard(m),
        TermTape::Create => Tape::Create(m),
    }
}

/// Tapes of one kind on every term of a polynomial, summed.
fn sum_over_terms<S: Label, G: DeepView>(poly: &Polynomial<S>, kind: TermTape) -> (r: Tape<S, G>)
    ensures
        tape_view(r) == sum_all(polynomial_view(*poly).terms().map_values(
            |t: Monomial<S::V>| term_tape::<S::V, G::V>(kind, t),
        )),
{
    proof {
        lemma_view_terms(*poly);
    }
    let terms = poly.terms_vec();
    let ghost vt = polynomial_view(*poly).terms();
    let mut acc: Tape<S, G> = Tape::IdZero;
    let mut i: usize = 0;
    while i < terms.len()
        invariant
            i <= terms@.len(),
            monomial_views(terms@) == vt,
            tape_view(acc) == sum_all(vt.subrange(0, i as int).map_values(
                |t: Monomial<S::V>| term_tape::<S::V, G::V>(kind, t),
            )),
        decreases terms@.len() - i,
    {
        let m = terms[i].duplicate();
        proof {
            assert(monomial_views(terms@)[i as int] == monomial_view(terms@[i as int]));
        }
        let tape: Tape<S, G> = match kind {
            TermTape::Id => Tape::Id(m),
            TermTape::Discard => Tape::Discard(m),
            TermTape::Create => Tape::Create(m),
        };
        proof {
            let f = |t: Monomial<S::V>| term_tape::<S::V, G::V>(kind, t);
            assert(tape_view(tape) == f(vt[i as int]));
            assert(vt.subrange(0, i + 1).map_values(f) =~= vt.subrange(0, i as int).map_values(f).push(
                f(vt[i as int]),
            ));
            lemma_sum_all_push(vt.subrange(0, i as int).map_values(f), f(vt[i as int]));
            lemma_view_tape_sum(acc, tape);
        }
        acc = Tape::sum(acc, tape);
        i = i + 1;
    }
    proof {
        assert(vt.subrange(0, vt.len() as int) =~= vt);
    }
    acc
}

/// Identities on every term of a polynomial, summed.
pub fn id_poly<S: Label, G: DeepView>(poly: &Polynomial<S>) -> (r: Tape<S, G>)
    ensures
        tape_view(r) == id_poly_spec::<S::V, G::V>(polynomial_view(*poly)),
{
    let r = sum_over_terms(poly, TermTape::Id);
    proof {
        assert(polynomial_view(*poly).terms().map_values(
            |t: Monomial<S::V>| term_tape::<S::V, G::V>(TermTape::Id, t),
        ) =~= polynomial_view(*poly).terms().map_values(|t: Monomial<S::V>| Tape::<S::V, G::V>::Id(t)));
    }
    r
}

impl<S: Label, G: DeepView> Tape<S, G> {
    /// Discards of every term of a polynomial, summed; `IdZero` for zero.
    pub fn discard_poly(poly: &Polynomial<S>) -> (r: Tape<S, G>)
        ensures
            tape_view(r) == discard_poly_spec::<S::V, G::V>(polynomial_view(*poly)),
    {
        let r = sum_over_terms(poly, TermTape::Discard);
        proof {
            assert(polynomial_view(*poly).terms().map_values(
                |t: Monomial<S::V>| term_tape::<S::V, G::V>(TermTape::Discard, t),
            ) =~= polynomial_view(*poly).terms().map_values(|t: Monomial<S::V>| Tape::<S::V, G::V>::Discard(t)));
        }
        r
    }

    /// Creations of every term of a polynomial, summed; `IdZero` for zero.
    pub fn create_poly(poly: &Polynomial<S>) -> (r: Tape<S, G>)
        ensures
            tape_view(r) == create_poly_spec::<S::V, G::V>(polynomial_view(*poly)),
    {
        let r = sum_over_terms(poly, TermTape::Create);
        proof {
            assert(polynomial_view(*poly).terms().map_values(
                |t: Monomial<S::V>| term_tape::<S::V, G::V>(TermTape::Create, t),
            ) =~= polynomial_view(*poly).terms().map_values(|t: Monomial<S::V>| Tape::<S::V, G::V>::Create(t)));
        }
        r
    }

    /// Traces `tape` around every term of `poly`, the first term innermost.
    pub fn trace_poly(poly: &Polynomial<S>, tape: Tape<S, G>) -> (r: Tape<S, G>)
        ensures
            tape_view(r) == traced(polynomial_view(*poly).terms(), tape_view(tape)),
    {
        proof {
            lemma_view_terms(*poly);
        }
        let terms = poly.terms_vec();
        let ghost vt = polynomial_view(*poly).terms();
        let mut acc = tape;
        let mut i: usize = 0;
        while i < terms.len()
            invariant
                i <= terms@.len(),
                monomial_views(terms@) == vt,
                tape_view(acc) == traced(vt.subrange(0, i as int), tape_view(tape)),
            decreases terms@.len() - i,
        {
            let m = terms[i].duplicate();
            proof {
                assert(monomial_views(terms@)[i as int] == monomial_view(terms@[i as int]));
                assert(vt.subrange(0, i + 1).drop_last() =~= vt.subrange(0, i as int));
            }
            acc = Tape::Trace { around: m, tape: Box::new(acc) };
            i = i + 1;
        }
        proof {
            assert(vt.subrange(0, vt.len() as int) =~= vt);
        }
        acc
    }

    /// Discards the inputs and creates the outputs: the zero tape between
    /// two polynomials.
    pub fn zero(inputs: &Polynomial<S>, outputs: &Polynomial<S>) -> (r: Tape<S, G>)
        ensures
            tape_view(r) == Tape::spec_seq(
                discard_poly_spec::<S::V, G::V>(polynomial_view(*inputs)),
                create_poly_spec::<S::V, G::V>(polynomial_view(*outputs)),
            ),
    {
        let d = Tape::discard_poly(inputs);
        let c = Tape::create_poly(outputs);
        proof {
            lemma_view_tape_seq(d, c);
        }
        Tape::seq(d, c)
    }

    /// Copies every wire of a monomial, as one embedded circuit.
    pub fn copy_wires(monomial: Monomial<S>) -> (r: Tape<S, G>)
        requires
            2 * monomial.sorts().len() <= usize::MAX,
        ensures
            tape_view(r) == Tape::<S::V, G::V>::EmbedCircuit(Box::new(
                copy_wires_circuit::<S::V, G::V>(monomial_view(monomial).sorts()),
            )),
    {
        let atoms = monomial.sorts_vec();
        proof {
            lemma_view_sorts(monomial);
            assert(atoms.deep_view() =~= views(atoms@));
        }
        Tape::EmbedCircuit(Box::new(Circuit::copy_wires(atoms)))
    }

    /// Joins two copies of every wire of a monomial, as one embedded circuit.
    pub fn join_wires(monomial: Monomial<S>) -> (r: Tape<S, G>)
        requires
            2 * monomial.sorts().len() <= usize::MAX,
        ensures
            tape_view(r) == Tape::<S::V, G::V>::EmbedCircuit(Box::new(
                join_wires_circuit::<S::V, G::V>(monomial_view(monomial).sorts()),
            )),
    {
        let atoms = monomial.sorts_vec();
        proof {
            lemma_view_sorts(monomial);
            assert(atoms.deep_view() =~= views(atoms@));
        }
        Tape::EmbedCircuit(Box::new(Circuit::join_wires(atoms)))
    }
}

/// Splits every term of a polynomial in two, with outputs reordered so
/// that the whole polynomial comes out twice: `P + P`.
pub open spec fn split_poly_spec<T, H>(terms: Seq<Monomial<T>>) -> Tape<T, H>
    decreases terms.len(),
{
    if terms.len() == 0 {
        Tape::IdZero
    } else if terms.len() == 1 {
        Tape::Split(terms[0])
    } else {
        let term = terms.last();
        let rest_poly = Polynomial::spec_from_terms(terms.drop_last());
        let combined = Tape::spec_sum(split_poly_spec(terms.drop_last()), Tape::Split(term));
        let reorder = Tape::spec_sum(
            id_poly_spec(rest_poly),
            Tape::spec_sum(swap_sum_blocks_spec(rest_poly, Polynomial::Monomial(term)), Tape::Id(term)),
        );
        Tape::spec_seq(combined, reorder)
    }
}

/// Merges two copies of a polynomial, `P + P`, term by term, with inputs
/// reordered first.
pub open spec fn merge_poly_spec<T, H>(terms: Seq<Monomial<T>>) -> Tape<T, H>
    decreases terms.len(),
{
    if terms.len() == 0 {
        Tape::IdZero
    } else if terms.len() == 1 {
        Tape::Merge(terms[0])
    } else {
        let term = terms.last();
        let rest_poly = Polynomial::spec_from_terms(terms.drop_last());
        let reorder = Tape::spec_sum(
            id_poly_spec(rest_poly),
            Tape::spec_sum(swap_sum_blocks_spec(Polynomial::Monomial(term), rest_poly), Tape::Id(term)),
        );
        let combined = Tape::spec_sum(merge_poly_spec(terms.drop_last()), Tape::Merge(term));
        Tape::spec_seq(reorder, combined)
    }
}

/// Copies of a list of monomials.
pub fn duplicate_terms<S: Label>(terms: &Vec<Monomial<S>>) -> (r: Vec<Monomial<S>>)
    ensures
        monomial_views(r@) == monomial_views(terms@),
{
    let mut out: Vec<Monomial<S>> = Vec::new();
    let mut i: usize = 0;
    while i < terms.len()
        invariant
            i <= terms@.len(),
            monomial_views(out@) == monomial_views(terms@).subrange(0, i as int),
        decreases terms@.len() - i,
    {
        let ghost before = out@;
        let m = terms[i].duplicate();
        out.push(m);
        proof {
            assert(monomial_views(out@) =~= monomial_views(before).push(monomial_view(terms@[i as int])));
            assert(monomial_views(out@) =~= monomial_views(terms@).subrange(0, i + 1));
        }
        i = i + 1;
    }
    proof {
        assert(monomial_views(terms@).subrange(0, terms@.len() as int) =~= monomial_views(terms@));
    }
    out
}

/// Which of the two reordered copy-and-merge tapes to build.
enum Fold {
    SplitTerms,
    MergeTerms,
}

spec fn fold_spec<T, H>(kind: Fold, terms: Seq<Monomial<T>>) -> Tape<T, H> {
    match kind {
        Fold::SplitTerms => split_poly_spec(terms),
        Fold::MergeTerms => merge_poly_spec(terms),
    }
}

/// Builds the split or the merge of a polynomial, one term at a time.
fn fold_terms<S: Label, G: DeepView>(poly: &Polynomial<S>, kind: Fold) -> (r: Tape<S, G>)
    ensures
        tape_view(r) == fold_spec::<S::V, G::V>(kind, polynomial_view(*poly).terms()),
{
    proof {
        lemma_view_terms(*poly);
    }
    let terms = poly.terms_vec();
    let ghost vt = polynomial_view(*poly).terms();
    if terms.len() == 0 {
        return Tape::IdZero;
    }
    let first = terms[0].duplicate();
    proof {
        assert(monomial_views(terms@)[0] == monomial_view(terms@[0]));
    }
    let mut acc_terms: Vec<Monomial<S>> = Vec::new();
    acc_terms.push(first.duplicate());
    let mut acc: Tape<S, G> = match kind {
        Fold::SplitTerms => Tape::Split(first),
        Fold::MergeTerms => Tape::Merge(first),
    };
    proof {
        assert(monomial_views(acc_terms@) =~= vt.subrange(0, 1));
        assert(vt.subrange(0, 1)[0] == vt[0]);
    }
    let mut i: usize = 1;
    while i < terms.len()
        invariant
            1 <= i <= terms@.len(),
            monomial_views(terms@) == vt,
            monomial_views(acc_terms@) == vt.subrange(0, i as int),
            tape_view(acc) == fold_spec::<S::V, G::V>(kind, vt.subrange(0, i as int)),
        decreases terms@.len() - i,
    {
        let term = terms[i].duplicate();
        proof {
            assert(monomial_views(terms@)[i as int] == monomial_view(terms@[i as int]));
        }
        let copies = duplicate_terms(&acc_terms);
        proof {
            lemma_view_from_terms(copies@);
        }
        let rest_poly = Polynomial::from_monomials(copies);
        let term_poly = Polynomial::Monomial(term.duplicate());
        let ids: Tape<S, G> = id_poly(&rest_poly);
        let swap_mid: Tape<S, G> = match kind {
            Fold::SplitTerms => swap_sum_blocks(&rest_poly, &term_poly),
            Fold::MergeTerms => swap_sum_blocks(&term_poly, &rest_poly),
        };
        let last_id: Tape<S, G> = Tape::Id(term.duplicate());
        proof {
            lemma_view_tape_sum(swap_mid, last_id);
            lemma_view_tape_sum(ids, Tape::spec_sum(swap_mid, last_id));
        }
        let reorder = Tape::sum(ids, Tape::sum(swap_mid, last_id));
        let ghost prev = vt.subrange(0, i as int);
        let ghost next = vt.subrange(0, i + 1);
        proof {
            assert(next.drop_last() =~= prev);
            assert(next.last() == vt[i as int]);
        }
        match kind {
            Fold::SplitTerms => {
                let piece: Tape<S, G> = Tape::Split(term.duplicate());
                proof {
                    lemma_view_tape_sum(acc, piece);
                }
                let combined = Tape::sum(acc, piece);
                proof {
                    lemma_view_tape_seq(combined, reorder);
                }
                acc = Tape::seq(combined, reorder);
            },
            Fold::MergeTerms => {
                let piece: Tape<S, G> = Tape::Merge(term.duplicate());
                proof {
                    lemma_view_tape_sum(acc, piece);
                }
                let combined = Tape::sum(acc, piece);
                proof {
                    lemma_view_tape_seq(reorder, combined);
                }
                acc = Tape::seq(reorder, combined);
            },
        }
        let ghost before = acc_terms@;
        acc_terms.push(term);
        proof {
            assert(monomial_views(acc_terms@) =~= next);
        }
        i = i + 1;
    }
    proof {
        assert(vt.subrange(0, vt.len() as int) =~= vt);
    }
    acc
}

/// Splits every term of a polynomial, giving `P + P`.
pub fn split_poly<S: Label, G: DeepView>(poly: &Polynomial<S>) -> (r: Tape<S, G>)
    ensures
        tape_view(r) == split_poly_spec::<S::V, G::V>(polynomial_view(*poly).terms()),
{
    fold_terms(poly, Fold::SplitTerms)
}

/// Merges `P + P` back into `P`, term by term.
pub fn merge_poly<S: Label, G: DeepView>(poly: &Polynomial<S>) -> (r: Tape<S, G>)
    ensures
        tape_view(r) == merge_poly_spec::<S::V, G::V>(polynomial_view(*poly).terms()),
{
    fold_terms(poly, Fold::MergeTerms)
}

} // verus!
