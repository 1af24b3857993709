//! The distributors of tapes: `P·(Q + R)` rearranged into `P·Q + P·R` and
//! back, and the exchange of two sums of monomials.

use vstd::prelude::*;

use super::builders::{
    lemma_view_tape_seq, lemma_view_tape_sum, monomial_times_poly, polynomial_atom_sorts, split_polynomial, sum_swaps,
};
use super::tape::{monomial_times, poly_sorts, sum_swaps_spec, tape_view, Tape};
use super::{lemma_from_terms_terms, lemma_view_sum, polynomial_view, Monomial, Polynomial};
use crate::label::Label;

verus! {

/// The identity on the wires of the given sorts, one term per sort: the
/// sum of the identities on the one-sort monomials.
pub open spec fn atom_ids<T, H>(sorts: Seq<T>) -> Tape<T, H>
    decreases sorts.len(),
{
    if sorts.len() == 0 {
        Tape::IdZero
    } else {
        Tape::spec_sum(Tape::Id(Monomial::Atom(sorts[0])), atom_ids(sorts.drop_first()))
    }
}

/// Moves the one-sort term `x` past the one-sort terms of `ys`, one
/// exchange of two terms at a time: from `x, y1, .., yn` to `y1, .., yn, x`.
pub open spec fn move_atom_past<T, H>(x: T, ys: Seq<T>) -> Tape<T, H>
    decreases ys.len(),
{
    if ys.len() == 0 {
        Tape::Id(Monomial::Atom(x))
    } else {
        Tape::spec_seq(
            Tape::spec_sum(Tape::Swap { left: Monomial::Atom(x), right: Monomial::Atom(ys[0]) }, atom_ids(ys.drop_first())),
            Tape::spec_sum(Tape::Id(Monomial::Atom(ys[0])), move_atom_past(x, ys.drop_first())),
        )
    }
}

/// Exchanges the block of one-sort terms `xs` with the block `ys`: from
/// `xs, ys` to `ys, xs`.
pub open spec fn atom_block_swap<T, H>(xs: Seq<T>, ys: Seq<T>) -> Tape<T, H>
    decreases xs.len(),
{
    if xs.len() == 0 {
        atom_ids(ys)
    } else {
        Tape::spec_seq(
            Tape::spec_sum(Tape::Id(Monomial::Atom(xs[0])), atom_block_swap(xs.drop_first(), ys)),
            Tape::spec_sum(move_atom_past(xs[0], ys), atom_ids(xs.drop_first())),
        )
    }
}

/// The left distributor from `P·(Q + R)` to `P·Q + P·R`, on the wires of
/// the expanded terms, one term per wire, taken term by term of `P`: for
/// the first term `h` and the rest `P'`, the wires of `h·Q` stay, those of
/// `h·R` move past those of `P'·Q`, and `P'` is distributed in turn.
pub open spec fn left_distributor_spec<T, H>(
    terms: Seq<Monomial<T>>,
    left: Polynomial<T>,
    right: Polynomial<T>,
) -> Tape<T, H>
    decreases terms.len(),
{
    if terms.len() == 0 {
        Tape::IdZero
    } else {
        let head = terms[0];
        let rest = Polynomial::spec_from_terms(terms.drop_first());
        let left_part = Tape::spec_sum(
            atom_ids(poly_sorts(monomial_times(head, Polynomial::spec_sum(left, right)).terms())),
            left_distributor_spec(terms.drop_first(), left, right),
        );
        let right_part = Tape::spec_sum(
            Tape::spec_sum(
                atom_ids(poly_sorts(monomial_times(head, left).terms())),
                atom_block_swap(
                    poly_sorts(monomial_times(head, right).terms()),
                    poly_sorts(Polynomial::spec_product(rest, left).terms()),
                ),
            ),
            atom_ids(poly_sorts(Polynomial::spec_product(rest, right).terms())),
        );
        Tape::spec_seq(left_part, right_part)
    }
}

/// The inverse of the left distributor, from `P·Q + P·R` back to
/// `P·(Q + R)`: the wires of `P'·Q` move back past those of `h·R`, then
/// `P'` is gathered in turn.
pub open spec fn inverse_left_distributor_spec<T, H>(
    terms: Seq<Monomial<T>>,
    left: Polynomial<T>,
    right: Polynomial<T>,
) -> Tape<T, H>
    decreases terms.len(),
{
    if terms.len() == 0 {
        Tape::IdZero
    } else {
        let head = terms[0];
        let rest = Polynomial::spec_from_terms(terms.drop_first());
        let right_part = Tape::spec_sum(
            Tape::spec_sum(
                atom_ids(poly_sorts(monomial_times(head, left).terms())),
                atom_block_swap(
                    poly_sorts(Polynomial::spec_product(rest, left).terms()),
                    poly_sorts(monomial_times(head, right).terms()),
                ),
            ),
            atom_ids(poly_sorts(Polynomial::spec_product(rest, right).terms())),
        );
        let left_part = Tape::spec_sum(
            atom_ids(poly_sorts(monomial_times(head, Polynomial::spec_sum(left, right)).terms())),
            inverse_left_distributor_spec(terms.drop_first(), left, right),
        );
        Tape::spec_seq(right_part, left_part)
    }
}

/// The exchange `P·Q` to `Q·P`, taken term by term of `Q`: distribute `P`
/// over the first term and the rest, exchange the first term past every
/// term of `P`, and exchange the rest in turn.
pub open spec fn swap_poly_spec<T, H>(left: Polynomial<T>, right_terms: Seq<Monomial<T>>) -> Tape<T, H>
    decreases right_terms.len(),
{
    if right_terms.len() == 0 {
        Tape::IdZero
    } else {
        let head = right_terms[0];
        let rest = Polynomial::spec_from_terms(right_terms.drop_first());
        let left_dist = left_distributor_spec(left.terms(), Polynomial::Monomial(head), rest);
        let right_part = Tape::spec_sum(sum_swaps_spec(left, head), swap_poly_spec(left, right_terms.drop_first()));
        Tape::spec_seq(left_dist, right_part)
    }
}

/// The identity on one-sort terms for the sorts from `i` on.
fn atom_ids_from<S: Label, G: DeepView>(sorts: &Vec<S>, i: usize) -> (r: Tape<S, G>)
    requires
        i <= sorts@.len(),
    ensures
        tape_view(r) == atom_ids::<S::V, G::V>(sorts.deep_view().subrange(i as int, sorts@.len() as int)),
    decreases sorts@.len() - i,
{
    let ghost vs = sorts.deep_view().subrange(i as int, sorts@.len() as int);
    if i == sorts.len() {
        return Tape::IdZero;
    }
    proof {
        assert(vs.drop_first() =~= sorts.deep_view().subrange(i + 1, sorts@.len() as int));
        assert(vs[0] == sorts@[i as int].deep_view());
    }
    let head: Tape<S, G> = Tape::Id(Monomial::Atom(sorts[i].duplicate()));
    let rest: Tape<S, G> = atom_ids_from(sorts, i + 1);
    proof {
        lemma_view_tape_sum(head, rest);
    }
    Tape::sum(head, rest)
}

/// Moves the one-sort term `x` past the one-sort terms of the sorts of
/// `ys` from `j` on.
fn move_atom_past_from<S: Label, G: DeepView>(x: &S, ys: &Vec<S>, j: usize) -> (r: Tape<S, G>)
    requires
        j <= ys@.len(),
    ensures
        tape_view(r) == move_atom_past::<S::V, G::V>(x.deep_view(), ys.deep_view().subrange(j as int, ys@.len() as int)),
    decreases ys@.len() - j,
{
    let ghost vs = ys.deep_view().subrange(j as int, ys@.len() as int);
    if j == ys.len() {
        return Tape::Id(Monomial::Atom(x.duplicate()));
    }
    proof {
        assert(vs.drop_first() =~= ys.deep_view().subrange(j + 1, ys@.len() as int));
        assert(vs[0] == ys@[j as int].deep_view());
    }
    let swap: Tape<S, G> = Tape::Swap { left: Monomial::Atom(x.duplicate()), right: Monomial::Atom(ys[j].duplicate()) };
    let others: Tape<S, G> = atom_ids_from(ys, j + 1);
    proof {
        lemma_view_tape_sum(swap, others);
    }
    let first = Tape::sum(swap, others);
    let stay: Tape<S, G> = Tape::Id(Monomial::Atom(ys[j].duplicate()));
    let moved: Tape<S, G> = move_atom_past_from(x, ys, j + 1);
    proof {
        lemma_view_tape_sum(stay, moved);
    }
    let second = Tape::sum(stay, moved);
    proof {
        lemma_view_tape_seq(first, second);
    }
    Tape::seq(first, second)
}

/// Exchanges the one-sort terms of the sorts of `xs` from `i` on with those
/// of all the sorts of `ys`.
fn atom_block_swap_from<S: Label, G: DeepView>(xs: &Vec<S>, i: usize, ys: &Vec<S>) -> (r: Tape<S, G>)
    requires
        i <= xs@.len(),
    ensures
        tape_view(r) == atom_block_swap::<S::V, G::V>(xs.deep_view().subrange(i as int, xs@.len() as int), ys.deep_view()),
    decreases xs@.len() - i,
{
    let ghost vs = xs.deep_view().subrange(i as int, xs@.len() as int);
    proof {
        assert(ys.deep_view().subrange(0, ys@.len() as int) =~= ys.deep_view());
    }
    if i == xs.len() {
        return atom_ids_from(ys, 0);
    }
    proof {
        assert(vs.drop_first() =~= xs.deep_view().subrange(i + 1, xs@.len() as int));
        assert(vs[0] == xs@[i as int].deep_view());
    }
    let stay: Tape<S, G> = Tape::Id(Monomial::Atom(xs[i].duplicate()));
    let inner: Tape<S, G> = atom_block_swap_from(xs, i + 1, ys);
    proof {
        lemma_view_tape_sum(stay, inner);
    }
    let first = Tape::sum(stay, inner);
    let moved: Tape<S, G> = move_atom_past_from(&xs[i], ys, 0);
    let others: Tape<S, G> = atom_ids_from(xs, i + 1);
    proof {
        lemma_view_tape_sum(moved, others);
    }
    let second = Tape::sum(moved, others);
    proof {
        lemma_view_tape_seq(first, second);
    }
    Tape::seq(first, second)
}

/// The identity on the wires of the terms of a polynomial, one term per
/// sort.
fn poly_atom_ids<S: Label, G: DeepView>(poly: &Polynomial<S>) -> (r: Tape<S, G>)
    ensures
        tape_view(r) == atom_ids::<S::V, G::V>(poly_sorts(polynomial_view(*poly).terms())),
{
    let sorts = polynomial_atom_sorts(poly);
    proof {
        assert(sorts.deep_view().subrange(0, sorts@.len() as int) =~= sorts.deep_view());
    }
    atom_ids_from(&sorts, 0)
}

/// The exchange of the one-sort terms of the wires of `left` with those of
/// `right`.
fn poly_atom_block_swap<S: Label, G: DeepView>(left: &Polynomial<S>, right: &Polynomial<S>) -> (r: Tape<S, G>)
    ensures
        tape_view(r) == atom_block_swap::<S::V, G::V>(
            poly_sorts(polynomial_view(*left).terms()),
            poly_sorts(polynomial_view(*right).terms()),
        ),
{
    let xs = polynomial_atom_sorts(left);
    let ys = polynomial_atom_sorts(right);
    proof {
        assert(xs.deep_view().subrange(0, xs@.len() as int) =~= xs.deep_view());
    }
    atom_block_swap_from(&xs, 0, &ys)
}

/// The right-hand pieces of the distributor: the identity on `h·Q`, the
/// exchange of `h·R` with `P'·Q` (of `P'·Q` with `h·R` when `back`), and
/// the identity on `P'·R`.
fn distributor_middle<S: Label, G: DeepView>(
    head: &Monomial<S>,
    rest: &Polynomial<S>,
    left: &Polynomial<S>,
    right: &Polynomial<S>,
    back: bool,
) -> (r: Tape<S, G>)
    ensures
        tape_view(r) == Tape::<S::V, G::V>::spec_sum(
            Tape::spec_sum(
                atom_ids(poly_sorts(monomial_times(head.deep_view(), polynomial_view(*left)).terms())),
                if back {
                    atom_block_swap(
                        poly_sorts(Polynomial::spec_product(polynomial_view(*rest), polynomial_view(*left)).terms()),
                        poly_sorts(monomial_times(head.deep_view(), polynomial_view(*right)).terms()),
                    )
                } else {
                    atom_block_swap(
                        poly_sorts(monomial_times(head.deep_view(), polynomial_view(*right)).terms()),
                        poly_sorts(Polynomial::spec_product(polynomial_view(*rest), polynomial_view(*left)).terms()),
                    )
                },
            ),
            atom_ids(poly_sorts(Polynomial::spec_product(polynomial_view(*rest), polynomial_view(*right)).terms())),
        ),
{
    let head_left = monomial_times_poly(head, left);
    let head_right = monomial_times_poly(head, right);
    let rest_left = Polynomial::product(rest.duplicate(), left.duplicate());
    let rest_right = Polynomial::product(rest.duplicate(), right.duplicate());
    let id_head_left: Tape<S, G> = poly_atom_ids(&head_left);
    let swap: Tape<S, G> = if back {
        poly_atom_block_swap(&rest_left, &head_right)
    } else {
        poly_atom_block_swap(&head_right, &rest_left)
    };
    let id_rest_right: Tape<S, G> = poly_atom_ids(&rest_right);
    proof {
        lemma_view_tape_sum(id_head_left, swap);
        lemma_view_tape_sum(Tape::spec_sum(id_head_left, swap), id_rest_right);
    }
    Tape::sum(Tape::sum(id_head_left, swap), id_rest_right)
}

/// The identity on the wires of `h·(Q + R)`.
fn distributor_head<S: Label, G: DeepView>(
    head: &Monomial<S>,
    left: &Polynomial<S>,
    right: &Polynomial<S>,
) -> (r: Tape<S, G>)
    ensures
        tape_view(r) == atom_ids::<S::V, G::V>(
            poly_sorts(
                monomial_times(head.deep_view(), Polynomial::spec_sum(polynomial_view(*left), polynomial_view(*right))).terms(),
            ),
        ),
{
    let l = left.duplicate();
    let r = right.duplicate();
    proof {
        lemma_view_sum(l, r);
    }
    let sum_left_right = Polynomial::sum(l, r);
    let head_sum = monomial_times_poly(head, &sum_left_right);
    poly_atom_ids(&head_sum)
}

/// The left distributor from `P·(Q + R)` to `P·Q + P·R`.
pub fn left_distributor<S: Label, G: DeepView>(
    poly: &Polynomial<S>,
    left: &Polynomial<S>,
    right: &Polynomial<S>,
) -> (r: Tape<S, G>)
    ensures
        tape_view(r) == left_distributor_spec::<S::V, G::V>(
            polynomial_view(*poly).terms(),
            polynomial_view(*left),
            polynomial_view(*right),
        ),
    decreases polynomial_view(*poly).terms().len(),
{
    let (head, rest) = split_polynomial(poly);
    match head {
        None => Tape::IdZero,
        Some(head) => {
            proof {
                lemma_from_terms_terms(polynomial_view(*poly).terms().drop_first());
            }
            let head_part: Tape<S, G> = distributor_head(&head, left, right);
            let inner: Tape<S, G> = left_distributor(&rest, left, right);
            proof {
                lemma_view_tape_sum(head_part, inner);
            }
            let left_part = Tape::sum(head_part, inner);
            let right_part: Tape<S, G> = distributor_middle(&head, &rest, left, right, false);
            proof {
                lemma_view_tape_seq(left_part, right_part);
            }
            Tape::seq(left_part, right_part)
        },
    }
}

/// The inverse of the left distributor, from `P·Q + P·R` to `P·(Q + R)`.
pub fn inverse_left_distributor<S: Label, G: DeepView>(
    poly: &Polynomial<S>,
    left: &Polynomial<S>,
    right: &Polynomial<S>,
) -> (r: Tape<S, G>)
    ensures
        tape_view(r) == inverse_left_distributor_spec::<S::V, G::V>(
            polynomial_view(*poly).terms(),
            polynomial_view(*left),
            polynomial_view(*right),
        ),
    decreases polynomial_view(*poly).terms().len(),
{
    let (head, rest) = split_polynomial(poly);
    match head {
        None => Tape::IdZero,
        Some(head) => {
            proof {
                lemma_from_terms_terms(polynomial_view(*poly).terms().drop_first());
            }
            let right_part: Tape<S, G> = distributor_middle(&head, &rest, left, right, true);
            let head_part: Tape<S, G> = distributor_head(&head, left, right);
            let inner: Tape<S, G> = inverse_left_distributor(&rest, left, right);
            proof {
                lemma_view_tape_sum(head_part, inner);
            }
            let left_part = Tape::sum(head_part, inner);
            proof {
                lemma_view_tape_seq(right_part, left_part);
            }
            Tape::seq(right_part, left_part)
        },
    }
}

/// The exchange of two polynomials, from `P·Q` to `Q·P`.
pub fn swap_poly<S: Label, G: DeepView>(left: &Polynomial<S>, right: &Polynomial<S>) -> (r: Tape<S, G>)
    ensures
        tape_view(r) == swap_poly_spec::<S::V, G::V>(polynomial_view(*left), polynomial_view(*right).terms()),
    decreases polynomial_view(*right).terms().len(),
{
    let (head, rest) = split_polynomial(right);
    match head {
        None => Tape::IdZero,
        Some(head) => {
            proof {
                lemma_from_terms_terms(polynomial_view(*right).terms().drop_first());
            }
            let head_poly = Polynomial::Monomial(head.duplicate());
            let left_dist: Tape<S, G> = left_distributor(left, &head_poly, &rest);
            let swaps: Tape<S, G> = sum_swaps(left, &head);
            let inner: Tape<S, G> = swap_poly(left, &rest);
            proof {
                lemma_view_tape_sum(swaps, inner);
            }
            let right_part = Tape::sum(swaps, inner);
            proof {
                lemma_view_tape_seq(left_dist, right_part);
            }
            Tape::seq(left_dist, right_part)
        },
    }
}

impl<S: Label, G: DeepView> Tape<S, G> {
    /// The left distributor from `P·(Q + R)` to `P·Q + P·R`.
    pub fn left_distributor(poly: &Polynomial<S>, left: &Polynomial<S>, right: &Polynomial<S>) -> (r: Tape<S, G>)
        ensures
            tape_view(r) == left_distributor_spec::<S::V, G::V>(
                polynomial_view(*poly).terms(),
                polynomial_view(*left),
                polynomial_view(*right),
            ),
    {
        left_distributor(poly, left, right)
    }
}

} // verus!
