//! Typing a program's tape: the drawing of the tape gives one type per node
//! and one equation per pair of nodes that the drawing identifies; solving
//! them, with the constraints of type inference, gives a substitution that
//! makes every node a primitive type.

use vstd::prelude::*;

use crate::expression_circuit::ExprGenerator;
use crate::label::duplicate_all;
use crate::solver::{all_hold, all_primitive, first_solution, solvable, solve_type_equations, substituted, SolveError, TypeSubstitution};
use crate::tape_language::drawing::{drawn, edge_drawn, TapeEdge};
use crate::tape_language::lax_graph::{below, edge_views, HyperEdge, LaxGraph};
use crate::tape_language::{monomial_view, Monomial};
use crate::types::{type_model, ConstraintModel, TypeConstraint, TypeExpr, TypeModel};
use crate::typing::copy_constraint;

verus! {

/// The drawing of a program's tape.
pub type TapeGraph = LaxGraph<Monomial<TypeExpr>, TapeEdge<TypeExpr, ExprGenerator>>;

/// The type of a one-sort monomial.
pub open spec fn atom_type(m: Monomial<TypeExpr>) -> TypeModel {
    type_model(m->Atom_0)
}

pub open spec fn atom_types(s: Seq<Monomial<TypeExpr>>) -> Seq<TypeModel> {
    s.map_values(|m: Monomial<TypeExpr>| atom_type(m))
}

pub open spec fn types_of(s: Seq<TypeExpr>) -> Seq<TypeModel> {
    s.map_values(|t: TypeExpr| type_model(t))
}

/// The entries of `nodes` at the positions `ids`.
pub open spec fn at(nodes: Seq<TypeModel>, ids: Seq<usize>) -> Seq<TypeModel> {
    ids.map_values(|i: usize| nodes[i as int])
}

/// An equation between corresponding entries, as far as the shorter
/// sequence goes.
pub open spec fn pair_equations(outer: Seq<TypeModel>, inner: Seq<TypeModel>) -> Seq<ConstraintModel> {
    let n = if outer.len() <= inner.len() {
        outer.len()
    } else {
        inner.len()
    };
    Seq::new(n, |i: int| ConstraintModel::Equal(outer[i], inner[i]))
}

/// An equation for each identified pair of nodes.
pub open spec fn quotient_equations(nodes: Seq<TypeModel>, q: Seq<(usize, usize)>) -> Seq<ConstraintModel> {
    q.map_values(|p: (usize, usize)| ConstraintModel::Equal(nodes[p.0 as int], nodes[p.1 as int]))
}

/// The node types of a drawing: its own nodes, then those of its edges in
/// order.
pub open spec fn graph_types(g: TapeGraph) -> Seq<TypeModel>
    decreases g, 2int, 0int,
{
    atom_types(g@.nodes) + edges_types(g, g.edges@.len() as int)
}

/// The node types of the first `k` edges of a drawing.
pub open spec fn edges_types(g: TapeGraph, k: int) -> Seq<TypeModel>
    decreases g, 1int, k,
{
    if k <= 0 || k > g.edges@.len() {
        Seq::empty()
    } else {
        edges_types(g, k - 1) + edge_types(g.edges@[k - 1])
    }
}

/// The node types inside an edge: the embedded circuit's nodes, or the
/// node types of both factors.
pub open spec fn edge_types(e: TapeEdge<TypeExpr, ExprGenerator>) -> Seq<TypeModel>
    decreases e, 0int, 0int,
{
    match e {
        TapeEdge::Embedded(c) => types_of(c.nodes@),
        TapeEdge::Product(l, r) => graph_types(*l) + graph_types(*r),
    }
}

/// The equations of a drawing: one per identified pair of its nodes, then
/// those of its edges in order.
pub open spec fn graph_equations(g: TapeGraph) -> Seq<ConstraintModel>
    decreases g, 2int, 0int,
{
    quotient_equations(atom_types(g@.nodes), g@.quotient) + edges_equations(g, g.edges@.len() as int)
}

/// The equations of the first `k` edges of a drawing.
pub open spec fn edges_equations(g: TapeGraph, k: int) -> Seq<ConstraintModel>
    decreases g, 1int, k,
{
    if k <= 0 || k > g.edges@.len() {
        Seq::empty()
    } else {
        edges_equations(g, k - 1) + edge_equations(g.edges@[k - 1], atom_types(g@.nodes), g@.adjacency[k - 1])
    }
}

/// The equations of an edge whose sides are the nodes `adj` among
/// `outer`: for an embedded circuit, its identified pairs and each side
/// against the circuit's interface; for a product, each side against the
/// interfaces of the two factors, then the equations of both factors.
pub open spec fn edge_equations(
    e: TapeEdge<TypeExpr, ExprGenerator>,
    outer: Seq<TypeModel>,
    adj: (Seq<usize>, Seq<usize>),
) -> Seq<ConstraintModel>
    decreases e, 0int, 0int,
{
    match e {
        TapeEdge::Embedded(c) => {
            let inner = types_of(c.nodes@);
            quotient_equations(inner, c.quotient@) + pair_equations(at(outer, adj.0), at(inner, c.sources@))
                + pair_equations(at(outer, adj.1), at(inner, c.targets@))
        },
        TapeEdge::Product(l, r) => {
            let ls = l.sources@.len() as int;
            let lt = l.targets@.len() as int;
            let ln = atom_types(l@.nodes);
            let rn = atom_types(r@.nodes);
            pair_equations(at(outer, adj.0.subrange(0, ls)), at(ln, l.sources@)) + pair_equations(
                at(outer, adj.1.subrange(0, lt)),
                at(ln, l.targets@),
            ) + pair_equations(at(outer, adj.0.subrange(ls, adj.0.len() as int)), at(rn, r.sources@))
                + pair_equations(at(outer, adj.1.subrange(lt, adj.1.len() as int)), at(rn, r.targets@))
                + graph_equations(*l) + graph_equations(*r)
        },
    }
}

/// The type of a one-sort monomial.
fn monomial_atom_type(m: &Monomial<TypeExpr>) -> (r: TypeExpr)
    requires
        *m is Atom,
    ensures
        type_model(r) == atom_type(*m),
{
    match m {
        Monomial::Atom(t) => t.copy(),
        _ => {
            proof {
                assert(false);
            }
            TypeExpr::Unit
        },
    }
}

/// Appends an equation between the node `outer_ids[offset + i]` of `outer`
/// and the node `inner_ids[i]` of `inner`, for each `i` below `count` and
/// the length of `inner_ids`.
fn push_atom_pairs(
    constraints: &mut Vec<TypeConstraint>,
    outer: &Vec<Monomial<TypeExpr>>,
    outer_ids: &Vec<usize>,
    offset: usize,
    count: usize,
    inner: &Vec<Monomial<TypeExpr>>,
    inner_ids: &Vec<usize>,
)
    requires
        offset + count <= outer_ids@.len(),
        below(outer_ids@, outer@.len() as int),
        below(inner_ids@, inner@.len() as int),
        forall|i: int| 0 <= i < outer@.len() ==> #[trigger] outer@[i] is Atom,
        forall|i: int| 0 <= i < inner@.len() ==> #[trigger] inner@[i] is Atom,
    ensures
        final(constraints).deep_view() == old(constraints).deep_view() + pair_equations(
            at(atom_types(outer@), outer_ids@.subrange(offset as int, offset + count)),
            at(atom_types(inner@), inner_ids@),
        ),
{
    let ghost start = constraints.deep_view();
    let ghost o = at(atom_types(outer@), outer_ids@.subrange(offset as int, offset + count));
    let ghost n = at(atom_types(inner@), inner_ids@);
    let total = outer_ids.len();
    let len = if count <= inner_ids.len() {
        count
    } else {
        inner_ids.len()
    };
    let mut i: usize = 0;
    while i < len
        invariant
            i <= len,
            len <= count,
            len <= inner_ids@.len(),
            offset + count <= outer_ids@.len(),
            total == outer_ids@.len(),
            below(outer_ids@, outer@.len() as int),
            below(inner_ids@, inner@.len() as int),
            forall|k: int| 0 <= k < outer@.len() ==> #[trigger] outer@[k] is Atom,
            forall|k: int| 0 <= k < inner@.len() ==> #[trigger] inner@[k] is Atom,
            o == at(atom_types(outer@), outer_ids@.subrange(offset as int, offset + count)),
            n == at(atom_types(inner@), inner_ids@),
            constraints.deep_view() =~= start + Seq::new(i as nat, |k: int| ConstraintModel::Equal(o[k], n[k])),
        decreases len - i,
    {
        let a = outer_ids[offset + i];
        let b = inner_ids[i];
        let lhs = monomial_atom_type(&outer[a]);
        let rhs = monomial_atom_type(&inner[b]);
        let ghost before = constraints.deep_view();
        constraints.push(TypeConstraint::Equal(lhs, rhs));
        proof {
            assert(o[i as int] == atom_type(outer@[a as int]));
            assert(n[i as int] == atom_type(inner@[b as int]));
            assert(constraints.deep_view() =~= before.push(ConstraintModel::Equal(o[i as int], n[i as int])));
        }
        i = i + 1;
    }
}

/// As `push_atom_pairs`, with inner nodes that are types.
fn push_type_pairs(
    constraints: &mut Vec<TypeConstraint>,
    outer: &Vec<Monomial<TypeExpr>>,
    outer_ids: &Vec<usize>,
    inner: &Vec<TypeExpr>,
    inner_ids: &Vec<usize>,
)
    requires
        below(outer_ids@, outer@.len() as int),
        below(inner_ids@, inner@.len() as int),
        forall|i: int| 0 <= i < outer@.len() ==> #[trigger] outer@[i] is Atom,
    ensures
        final(constraints).deep_view() == old(constraints).deep_view() + pair_equations(
            at(atom_types(outer@), outer_ids@),
            at(types_of(inner@), inner_ids@),
        ),
{
    let ghost start = constraints.deep_view();
    let ghost o = at(atom_types(outer@), outer_ids@);
    let ghost n = at(types_of(inner@), inner_ids@);
    let len = if outer_ids.len() <= inner_ids.len() {
        outer_ids.len()
    } else {
        inner_ids.len()
    };
    let mut i: usize = 0;
    while i < len
        invariant
            i <= len,
            len <= outer_ids@.len(),
            len <= inner_ids@.len(),
            below(outer_ids@, outer@.len() as int),
            below(inner_ids@, inner@.len() as int),
            forall|k: int| 0 <= k < outer@.len() ==> #[trigger] outer@[k] is Atom,
            o == at(atom_types(outer@), outer_ids@),
            n == at(types_of(inner@), inner_ids@),
            constraints.deep_view() =~= start + Seq::new(i as nat, |k: int| ConstraintModel::Equal(o[k], n[k])),
        decreases len - i,
    {
        let a = outer_ids[i];
        let b = inner_ids[i];
        let lhs = monomial_atom_type(&outer[a]);
        let rhs = inner[b].copy();
        let ghost before = constraints.deep_view();
        constraints.push(TypeConstraint::Equal(lhs, rhs));
        proof {
            assert(o[i as int] == atom_type(outer@[a as int]));
            assert(n[i as int] == type_model(inner@[b as int]));
            assert(constraints.deep_view() =~= before.push(ConstraintModel::Equal(o[i as int], n[i as int])));
        }
        i = i + 1;
    }
}

/// Appends an equation for each identified pair of nodes among `nodes`,
/// which are types.
fn push_quotient_types(constraints: &mut Vec<TypeConstraint>, nodes: &Vec<TypeExpr>, quotient: &Vec<(usize, usize)>)
    requires
        forall|q: int| 0 <= q < quotient@.len() ==> (#[trigger] quotient@[q]).0 < nodes@.len() && quotient@[q].1 < nodes@.len(),
    ensures
        final(constraints).deep_view() == old(constraints).deep_view() + quotient_equations(types_of(nodes@), quotient@),
{
    let ghost start = constraints.deep_view();
    let mut i: usize = 0;
    while i < quotient.len()
        invariant
            i <= quotient@.len(),
            forall|q: int| 0 <= q < quotient@.len() ==> (#[trigger] quotient@[q]).0 < nodes@.len() && quotient@[q].1 < nodes@.len(),
            constraints.deep_view() =~= start + quotient_equations(types_of(nodes@), quotient@.subrange(0, i as int)),
        decreases quotient@.len() - i,
    {
        let (a, b) = quotient[i];
        let ghost before = constraints.deep_view();
        constraints.push(TypeConstraint::Equal(nodes[a].copy(), nodes[b].copy()));
        proof {
            assert(quotient@.subrange(0, i + 1) =~= quotient@.subrange(0, i as int).push(quotient@[i as int]));
            assert(constraints.deep_view() =~= before.push(
                ConstraintModel::Equal(types_of(nodes@)[a as int], types_of(nodes@)[b as int]),
            ));
        }
        i = i + 1;
    }
    proof {
        assert(quotient@.subrange(0, quotient@.len() as int) =~= quotient@);
    }
}

/// As `push_quotient_types`, with nodes that are one-sort monomials.
fn push_quotient_atoms(
    constraints: &mut Vec<TypeConstraint>,
    nodes: &Vec<Monomial<TypeExpr>>,
    quotient: &Vec<(usize, usize)>,
)
    requires
        forall|q: int| 0 <= q < quotient@.len() ==> (#[trigger] quotient@[q]).0 < nodes@.len() && quotient@[q].1 < nodes@.len(),
        forall|i: int| 0 <= i < nodes@.len() ==> #[trigger] nodes@[i] is Atom,
    ensures
        final(constraints).deep_view() == old(constraints).deep_view() + quotient_equations(atom_types(nodes@), quotient@),
{
    let ghost start = constraints.deep_view();
    let mut i: usize = 0;
    while i < quotient.len()
        invariant
            i <= quotient@.len(),
            forall|q: int| 0 <= q < quotient@.len() ==> (#[trigger] quotient@[q]).0 < nodes@.len() && quotient@[q].1 < nodes@.len(),
            forall|k: int| 0 <= k < nodes@.len() ==> #[trigger] nodes@[k] is Atom,
            constraints.deep_view() =~= start + quotient_equations(atom_types(nodes@), quotient@.subrange(0, i as int)),
        decreases quotient@.len() - i,
    {
        let (a, b) = quotient[i];
        let lhs = monomial_atom_type(&nodes[a]);
        let rhs = monomial_atom_type(&nodes[b]);
        let ghost before = constraints.deep_view();
        constraints.push(TypeConstraint::Equal(lhs, rhs));
        proof {
            assert(quotient@.subrange(0, i + 1) =~= quotient@.subrange(0, i as int).push(quotient@[i as int]));
            assert(constraints.deep_view() =~= before.push(
                ConstraintModel::Equal(atom_types(nodes@)[a as int], atom_types(nodes@)[b as int]),
            ));
        }
        i = i + 1;
    }
    proof {
        assert(quotient@.subrange(0, quotient@.len() as int) =~= quotient@);
    }
}

/// Appends a copy of each type of `src`.
fn push_types(nodes: &mut Vec<TypeExpr>, src: &Vec<TypeExpr>)
    ensures
        final(nodes).deep_view() == old(nodes).deep_view() + types_of(src@),
{
    let ghost start = nodes.deep_view();
    let mut i: usize = 0;
    while i < src.len()
        invariant
            i <= src@.len(),
            nodes.deep_view() =~= start + types_of(src@.subrange(0, i as int)),
        decreases src@.len() - i,
    {
        let ghost before = nodes.deep_view();
        nodes.push(src[i].copy());
        proof {
            assert(src@.subrange(0, i + 1) =~= src@.subrange(0, i as int).push(src@[i as int]));
            assert(nodes.deep_view() =~= before.push(type_model(src@[i as int])));
        }
        i = i + 1;
    }
    proof {
        assert(src@.subrange(0, src@.len() as int) =~= src@);
    }
}

/// Appends the node types of a drawing to `nodes` and its equations to
/// `constraints` (see `graph_types` and `graph_equations`).
fn collect_tape_constraints(term: &TapeGraph, nodes: &mut Vec<TypeExpr>, constraints: &mut Vec<TypeConstraint>)
    requires
        drawn(*term),
    ensures
        final(nodes).deep_view() == old(nodes).deep_view() + graph_types(*term),
        final(constraints).deep_view() == old(constraints).deep_view() + graph_equations(*term),
    decreases term, 1int,
{
    let ghost start_nodes = nodes.deep_view();
    let ghost start_constraints = constraints.deep_view();
    let mut i: usize = 0;
    while i < term.nodes.len()
        invariant
            i <= term@.nodes.len(),
            drawn(*term),
            nodes.deep_view() =~= start_nodes + atom_types(term@.nodes.subrange(0, i as int)),
        decreases term@.nodes.len() - i,
    {
        let t = monomial_atom_type(&term.nodes[i]);
        let ghost before = nodes.deep_view();
        nodes.push(t);
        proof {
            assert(term@.nodes.subrange(0, i + 1) =~= term@.nodes.subrange(0, i as int).push(term@.nodes[i as int]));
            assert(nodes.deep_view() =~= before.push(atom_type(term@.nodes[i as int])));
        }
        i = i + 1;
    }
    proof {
        assert(term@.nodes.subrange(0, term@.nodes.len() as int) =~= term@.nodes);
        assert forall|q: int| 0 <= q < term.quotient@.len() implies (#[trigger] term.quotient@[q]).0 < term.nodes@.len()
            && term.quotient@[q].1 < term.nodes@.len() by {
            assert(term@.quotient[q] == term.quotient@[q]);
        }
    }
    push_quotient_atoms(constraints, &term.nodes, &term.quotient);
    let mut e: usize = 0;
    while e < term.edges.len()
        invariant
            e <= term.edges@.len(),
            drawn(*term),
            nodes.deep_view() == start_nodes + atom_types(term@.nodes) + edges_types(*term, e as int),
            constraints.deep_view() == start_constraints + quotient_equations(atom_types(term@.nodes), term@.quotient)
                + edges_equations(*term, e as int),
        decreases term.edges@.len() - e,
    {
        collect_edge_constraints(term, e, nodes, constraints);
        e = e + 1;
    }
}

/// Appends the node types and equations of the edge numbered `e` of a
/// drawing.
fn collect_edge_constraints(
    term: &TapeGraph,
    e: usize,
    nodes: &mut Vec<TypeExpr>,
    constraints: &mut Vec<TypeConstraint>,
)
    requires
        drawn(*term),
        e < term.edges@.len(),
    ensures
        final(nodes).deep_view() == old(nodes).deep_view() + edge_types(term.edges@[e as int]),
        final(constraints).deep_view() == old(constraints).deep_view() + edge_equations(
            term.edges@[e as int],
            atom_types(term@.nodes),
            term@.adjacency[e as int],
        ),
    decreases term, 0int,
{
    proof {
        assert(edge_drawn(term.edges@[e as int], term@.adjacency[e as int]));
        assert(term@.adjacency[e as int] == (term.adjacency@[e as int].sources@, term.adjacency@[e as int].targets@));
        assert(below(term@.adjacency[e as int].0, term@.nodes.len() as int));
        assert(below(term@.adjacency[e as int].1, term@.nodes.len() as int));
    }
    let adj = &term.adjacency[e];
    match &term.edges[e] {
        TapeEdge::Embedded(child) => {
            proof {
                assert(child@.wf());
                assert forall|q: int| 0 <= q < child.quotient@.len() implies (#[trigger] child.quotient@[q]).0
                    < child.nodes@.len() && child.quotient@[q].1 < child.nodes@.len() by {
                    assert(child@.quotient[q] == child.quotient@[q]);
                }
            }
            push_types(nodes, &child.nodes);
            push_quotient_types(constraints, &child.nodes, &child.quotient);
            push_type_pairs(constraints, &term.nodes, &adj.sources, &child.nodes, &child.sources);
            push_type_pairs(constraints, &term.nodes, &adj.targets, &child.nodes, &child.targets);
        },
        TapeEdge::Product(left, right) => {
            proof {
                assert(drawn(**left) && drawn(**right));
                assert(left@.wf() && right@.wf());
            }
            let ls = left.sources.len();
            let lt = left.targets.len();
            let outer_sources = adj.sources.len();
            let outer_targets = adj.targets.len();
            push_atom_pairs(constraints, &term.nodes, &adj.sources, 0, ls, &left.nodes, &left.sources);
            push_atom_pairs(constraints, &term.nodes, &adj.targets, 0, lt, &left.nodes, &left.targets);
            push_atom_pairs(
                constraints,
                &term.nodes,
                &adj.sources,
                ls,
                outer_sources - ls,
                &right.nodes,
                &right.sources,
            );
            push_atom_pairs(
                constraints,
                &term.nodes,
                &adj.targets,
                lt,
                outer_targets - lt,
                &right.nodes,
                &right.targets,
            );
            collect_tape_constraints(left, nodes, constraints);
            collect_tape_constraints(right, nodes, constraints);
        },
    }
}

/// A monomial with the substitution applied to each of its sorts.
pub open spec fn monomial_substituted(m: Monomial<TypeModel>, s: Seq<(usize, TypeModel)>) -> Monomial<TypeModel>
    decreases m,
{
    match m {
        Monomial::One => Monomial::One,
        Monomial::Atom(t) => Monomial::Atom(substituted(t, s)),
        Monomial::Product(l, r) => Monomial::Product(
            Box::new(monomial_substituted(*l, s)),
            Box::new(monomial_substituted(*r, s)),
        ),
    }
}

/// `r` is `g` with the substitution applied to every node, inside the
/// edges too; everything else is unchanged.
pub open spec fn graph_substituted(g: TapeGraph, r: TapeGraph, s: Seq<(usize, TypeModel)>) -> bool
    decreases g, 1int,
{
    &&& r@.quotient == g@.quotient
    &&& r@.adjacency == g@.adjacency
    &&& r@.sources == g@.sources
    &&& r@.targets == g@.targets
    &&& r@.nodes.len() == g@.nodes.len()
    &&& forall|i: int|
        0 <= i < g@.nodes.len() ==> monomial_view(#[trigger] r@.nodes[i]) == monomial_substituted(
            monomial_view(g@.nodes[i]),
            s,
        )
    &&& r.edges@.len() == g.edges@.len()
    &&& forall|e: int| 0 <= e < g.edges@.len() ==> edge_substituted(#[trigger] g.edges@[e], r.edges@[e], s)
}

/// `b` is the edge `a` with the substitution applied to every node inside.
pub open spec fn edge_substituted(
    a: TapeEdge<TypeExpr, ExprGenerator>,
    b: TapeEdge<TypeExpr, ExprGenerator>,
    s: Seq<(usize, TypeModel)>,
) -> bool
    decreases a, 0int,
{
    match a {
        TapeEdge::Embedded(c) => b matches TapeEdge::Embedded(d) && {
            &&& d@.quotient == c@.quotient
            &&& d@.adjacency == c@.adjacency
            &&& d@.sources == c@.sources
            &&& d@.targets == c@.targets
            &&& d.edges.deep_view() == c.edges.deep_view()
            &&& types_of(d@.nodes) == types_of(c@.nodes).map_values(|t: TypeModel| substituted(t, s))
        },
        TapeEdge::Product(l, r) => b matches TapeEdge::Product(l2, r2) && graph_substituted(*l, *l2, s)
            && graph_substituted(*r, *r2, s),
    }
}

/// The monomial with the substitution applied to each of its sorts.
pub fn apply_substitution_to_monomial(monomial: &Monomial<TypeExpr>, subst: &TypeSubstitution) -> (r: Monomial<
    TypeExpr,
>)
    ensures
        monomial_view(r) == monomial_substituted(monomial_view(*monomial), subst.bindings()),
    decreases monomial,
{
    match monomial {
        Monomial::One => Monomial::One,
        Monomial::Atom(t) => Monomial::Atom(subst.apply(t)),
        Monomial::Product(left, right) => Monomial::Product(
            Box::new(apply_substitution_to_monomial(left, subst)),
            Box::new(apply_substitution_to_monomial(right, subst)),
        ),
    }
}

fn copy_ids(ids: &Vec<usize>) -> (r: Vec<usize>)
    ensures
        r@ == ids@,
{
    let mut out: Vec<usize> = Vec::new();
    let mut i: usize = 0;
    while i < ids.len()
        invariant
            i <= ids@.len(),
            out@ =~= ids@.subrange(0, i as int),
        decreases ids@.len() - i,
    {
        out.push(ids[i]);
        i = i + 1;
    }
    out
}

fn copy_pairs(pairs: &Vec<(usize, usize)>) -> (r: Vec<(usize, usize)>)
    ensures
        r@ == pairs@,
{
    let mut out: Vec<(usize, usize)> = Vec::new();
    let mut i: usize = 0;
    while i < pairs.len()
        invariant
            i <= pairs@.len(),
            out@ =~= pairs@.subrange(0, i as int),
        decreases pairs@.len() - i,
    {
        out.push(pairs[i]);
        i = i + 1;
    }
    out
}

fn copy_adjacency(adjacency: &Vec<HyperEdge>) -> (r: Vec<HyperEdge>)
    ensures
        edge_views(r@) == edge_views(adjacency@),
{
    let mut out: Vec<HyperEdge> = Vec::new();
    let mut i: usize = 0;
    while i < adjacency.len()
        invariant
            i <= adjacency@.len(),
            edge_views(out@) =~= edge_views(adjacency@.subrange(0, i as int)),
        decreases adjacency@.len() - i,
    {
        let e = HyperEdge { sources: copy_ids(&adjacency[i].sources), targets: copy_ids(&adjacency[i].targets) };
        let ghost before = out@;
        out.push(e);
        proof {
            assert(edge_views(out@) =~= edge_views(before).push((adjacency@[i as int].sources@, adjacency@[i as int].targets@)));
            assert(adjacency@.subrange(0, i + 1) =~= adjacency@.subrange(0, i as int).push(adjacency@[i as int]));
        }
        i = i + 1;
    }
    proof {
        assert(adjacency@.subrange(0, adjacency@.len() as int) =~= adjacency@);
    }
    out
}

/// The drawing of an embedded circuit with the substitution applied to its
/// nodes.
fn substitute_circuit_graph(child: &LaxGraph<TypeExpr, ExprGenerator>, subst: &TypeSubstitution) -> (r: LaxGraph<
    TypeExpr,
    ExprGenerator,
>)
    ensures
        r@.quotient == child@.quotient,
        r@.adjacency == child@.adjacency,
        r@.sources == child@.sources,
        r@.targets == child@.targets,
        r.edges.deep_view() == child.edges.deep_view(),
        types_of(r@.nodes) == types_of(child@.nodes).map_values(|t: TypeModel| substituted(t, subst.bindings())),
{
    let mut nodes: Vec<TypeExpr> = Vec::new();
    let mut i: usize = 0;
    while i < child.nodes.len()
        invariant
            i <= child.nodes@.len(),
            types_of(nodes@) =~= types_of(child.nodes@.subrange(0, i as int)).map_values(
                |t: TypeModel| substituted(t, subst.bindings()),
            ),
        decreases child.nodes@.len() - i,
    {
        let t = subst.apply(&child.nodes[i]);
        let ghost before = nodes@;
        nodes.push(t);
        proof {
            let f = |t: TypeModel| substituted(t, subst.bindings());
            assert(child.nodes@.subrange(0, i + 1) =~= child.nodes@.subrange(0, i as int).push(child.nodes@[i as int]));
            assert(types_of(nodes@) =~= types_of(before).push(type_model(t)));
            assert(types_of(child.nodes@.subrange(0, i + 1)) =~= types_of(child.nodes@.subrange(0, i as int)).push(
                type_model(child.nodes@[i as int]),
            ));
            assert(types_of(child.nodes@.subrange(0, i + 1)).map_values(f) =~= types_of(
                child.nodes@.subrange(0, i as int),
            ).map_values(f).push(f(type_model(child.nodes@[i as int]))));
        }
        i = i + 1;
    }
    proof {
        assert(child.nodes@.subrange(0, child.nodes@.len() as int) =~= child.nodes@);
    }
    LaxGraph {
        nodes,
        edges: duplicate_all(&child.edges),
        adjacency: copy_adjacency(&child.adjacency),
        quotient: copy_pairs(&child.quotient),
        sources: copy_ids(&child.sources),
        targets: copy_ids(&child.targets),
    }
}

/// The drawing with the substitution applied to every node, inside the
/// edges too.
pub fn apply_substitution_to_tape(term: &TapeGraph, subst: &TypeSubstitution) -> (r: TapeGraph)
    ensures
        graph_substituted(*term, r, subst.bindings()),
    decreases term, 1int,
{
    let mut nodes: Vec<Monomial<TypeExpr>> = Vec::new();
    let mut i: usize = 0;
    while i < term.nodes.len()
        invariant
            i <= term.nodes@.len(),
            nodes@.len() == i,
            forall|k: int|
                0 <= k < i ==> monomial_view(#[trigger] nodes@[k]) == monomial_substituted(
                    monomial_view(term.nodes@[k]),
                    subst.bindings(),
                ),
        decreases term.nodes@.len() - i,
    {
        nodes.push(apply_substitution_to_monomial(&term.nodes[i], subst));
        i = i + 1;
    }
    let mut edges: Vec<TapeEdge<TypeExpr, ExprGenerator>> = Vec::new();
    let mut e: usize = 0;
    while e < term.edges.len()
        invariant
            e <= term.edges@.len(),
            edges@.len() == e,
            forall|k: int| 0 <= k < e ==> edge_substituted(term.edges@[k], #[trigger] edges@[k], subst.bindings()),
        decreases term.edges@.len() - e,
    {
        edges.push(substitute_edge(term, e, subst));
        e = e + 1;
    }
    let r = LaxGraph {
        nodes,
        edges,
        adjacency: copy_adjacency(&term.adjacency),
        quotient: copy_pairs(&term.quotient),
        sources: copy_ids(&term.sources),
        targets: copy_ids(&term.targets),
    };
    proof {
        assert forall|k: int| 0 <= k < term.edges@.len() implies edge_substituted(
            #[trigger] term.edges@[k],
            r.edges@[k],
            subst.bindings(),
        ) by {
            assert(edges@[k] == r.edges@[k]);
        }
    }
    r
}

/// The edge numbered `e` of a drawing with the substitution applied.
fn substitute_edge(term: &TapeGraph, e: usize, subst: &TypeSubstitution) -> (r: TapeEdge<TypeExpr, ExprGenerator>)
    requires
        e < term.edges@.len(),
    ensures
        edge_substituted(term.edges@[e as int], r, subst.bindings()),
    decreases term, 0int,
{
    match &term.edges[e] {
        TapeEdge::Embedded(child) => TapeEdge::Embedded(substitute_circuit_graph(child, subst)),
        TapeEdge::Product(left, right) => TapeEdge::Product(
            Box::new(apply_substitution_to_tape(left, subst)),
            Box::new(apply_substitution_to_tape(right, subst)),
        ),
    }
}

/// The node types and the equations of a drawing.
fn build_program_type_equations(term: &TapeGraph) -> (r: (Vec<TypeExpr>, Vec<TypeConstraint>))
    requires
        drawn(*term),
    ensures
        r.0.deep_view() == graph_types(*term),
        r.1.deep_view() == graph_equations(*term),
{
    let mut nodes: Vec<TypeExpr> = Vec::new();
    let mut constraints: Vec<TypeConstraint> = Vec::new();
    proof {
        assert(nodes.deep_view() =~= Seq::empty());
        assert(constraints.deep_view() =~= Seq::empty());
    }
    collect_tape_constraints(term, &mut nodes, &mut constraints);
    proof {
        assert(nodes.deep_view() =~= graph_types(*term));
        assert(constraints.deep_view() =~= graph_equations(*term));
    }
    (nodes, constraints)
}

/// Solves the equations of a program's drawing together with the
/// constraints of type inference. On success, the substitution satisfies
/// every equation and constraint and makes every node of the drawing a
/// primitive type, and the drawing comes back with it applied.
pub fn solve_program_tape_with_subst(term: &TapeGraph, constraints: &[TypeConstraint]) -> (r: Result<
    (TapeGraph, TypeSubstitution),
    SolveError,
>)
    requires
        drawn(*term),
    ensures
        match r {
            Ok((solved, subst)) => {
                &&& all_hold(graph_equations(*term), subst.bindings())
                &&& all_hold(constraints@.map_values(|c: TypeConstraint| c.deep_view()), subst.bindings())
                &&& all_primitive(graph_types(*term), subst.bindings())
                &&& graph_substituted(*term, solved, subst.bindings())
            },
            Err(e) => e is NoSolution,
        },
        r is Ok <==> solvable(
            graph_types(*term),
            graph_equations(*term) + constraints@.map_values(|c: TypeConstraint| c.deep_view()),
        ),
        r matches Ok((solved, subst)) ==> first_solution(
            graph_types(*term),
            graph_equations(*term) + constraints@.map_values(|c: TypeConstraint| c.deep_view()),
            subst.bindings(),
        ),
{
    let (nodes, mut equations) = build_program_type_equations(term);
    let ghost own = equations.deep_view();
    let mut i: usize = 0;
    while i < constraints.len()
        invariant
            i <= constraints@.len(),
            equations.deep_view() =~= own + constraints@.subrange(0, i as int).map_values(|c: TypeConstraint| c.deep_view()),
        decreases constraints@.len() - i,
    {
        let c = copy_constraint(&constraints[i]);
        let ghost before = equations.deep_view();
        equations.push(c);
        proof {
            assert(constraints@.subrange(0, i + 1) =~= constraints@.subrange(0, i as int).push(constraints@[i as int]));
            assert(equations.deep_view() =~= before.push(constraints@[i as int].deep_view()));
        }
        i = i + 1;
    }
    proof {
        assert(constraints@.subrange(0, constraints@.len() as int) =~= constraints@);
    }
    proof {
        assert(nodes@.map_values(|t: TypeExpr| type_model(t)) =~= nodes.deep_view());
        assert(equations@.map_values(|c: TypeConstraint| c.deep_view()) =~= equations.deep_view());
    }
    match solve_type_equations(&nodes, &equations) {
        Ok(subst) => {
            proof {
                let all = equations@.map_values(|c: TypeConstraint| c.deep_view());
                assert(all =~= equations.deep_view());
                let cs = constraints@.map_values(|c: TypeConstraint| c.deep_view());
                assert forall|k: int| 0 <= k < own.len() implies crate::solver::constraint_holds(
                    #[trigger] own[k],
                    subst.bindings(),
                ) by {
                    assert(all[k] == own[k]);
                }
                assert forall|k: int| 0 <= k < cs.len() implies crate::solver::constraint_holds(
                    #[trigger] cs[k],
                    subst.bindings(),
                ) by {
                    assert(all[own.len() + k] == cs[k]);
                }
                assert(nodes@.map_values(|t: TypeExpr| type_model(t)) =~= nodes.deep_view());
            }
            let solved = apply_substitution_to_tape(term, &subst);
            Ok((solved, subst))
        },
        Err(e) => Err(e),
    }
}

} // verus!
