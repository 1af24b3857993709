//! Drawing circuits and tapes as lax open hypergraphs. A circuit becomes a
//! graph over its sorts with its generators as hyperedges; a tape becomes a
//! graph over monomial atoms whose hyperedges hold the graphs of embedded
//! circuits and of products of tapes.

use vstd::prelude::*;

use super::builders::monomial_atoms;
use super::circuit::Circuit;
use super::lax_graph::{
    below, compose_lax_unchecked, lemma_relabel_constructions, relabel, shifted, span, span_vec, LaxGraph, LaxGraphModel,
};
use super::tape::Tape;
use super::{monomial_view, monomial_views, GeneratorShape, GeneratorTypes, Monomial};
use crate::label::{FreshSort, Label};

verus! {

/// The numbers of source and target wires drawn for a generator: its sorts
/// where they are known, its shape otherwise.
pub open spec fn generator_wires<S: DeepView, G: GeneratorShape + GeneratorTypes<S>>(g: G) -> (nat, nat) {
    (
        match g.spec_input_types() {
            Some(t) => t.len(),
            None => g.spec_arity(),
        },
        match g.spec_output_types() {
            Some(t) => t.len(),
            None => g.spec_coarity(),
        },
    )
}

/// The number of made-up sorts a generator's drawing needs.
pub open spec fn generator_fresh<S: DeepView, G: GeneratorShape + GeneratorTypes<S>>(g: G) -> nat {
    (if g.spec_input_types() is None {
        g.spec_arity()
    } else {
        0
    }) + (if g.spec_output_types() is None {
        g.spec_coarity()
    } else {
        0
    })
}

/// The numbers of source and target nodes of a circuit's drawing; `None`
/// when a sequential composition joins different numbers of wires.
pub open spec fn circuit_wires<S: DeepView, G: GeneratorShape + GeneratorTypes<S>>(c: Circuit<S, G>) -> Option<
    (nat, nat),
>
    decreases c,
{
    match c {
        Circuit::Id(_) => Some((1, 1)),
        Circuit::IdOne => Some((0, 0)),
        Circuit::Generator(g) => Some(generator_wires::<S, G>(g)),
        Circuit::Swap { .. } => Some((2, 2)),
        Circuit::Sequence(l, r) => match (circuit_wires(*l), circuit_wires(*r)) {
            (Some((li, lo)), Some((ri, ro))) => if lo == ri {
                Some((li, ro))
            } else {
                None
            },
            _ => None,
        },
        Circuit::Product(l, r) => match (circuit_wires(*l), circuit_wires(*r)) {
            (Some((li, lo)), Some((ri, ro))) => Some((li + ri, lo + ro)),
            _ => None,
        },
        Circuit::Copy(_) => Some((1, 2)),
        Circuit::Discard(_) => Some((1, 0)),
        Circuit::Join(_) => Some((2, 1)),
    }
}

/// The number of made-up sorts a circuit's drawing needs.
pub open spec fn circuit_fresh<S: DeepView, G: GeneratorShape + GeneratorTypes<S>>(c: Circuit<S, G>) -> nat
    decreases c,
{
    match c {
        Circuit::Generator(g) => generator_fresh::<S, G>(g),
        Circuit::Sequence(l, r) => circuit_fresh(*l) + circuit_fresh(*r),
        Circuit::Product(l, r) => circuit_fresh(*l) + circuit_fresh(*r),
        _ => 0,
    }
}

/// The views of `count` made-up sorts numbered from `next` on.
pub open spec fn fresh_views<S: FreshSort>(next: nat, count: nat) -> Seq<S::V> {
    Seq::new(count, |i: int| S::spec_fresh_sort((next + i) as usize))
}

/// The views of the sorts drawn for a generator's inputs: its own, or
/// made-up ones numbered from `next`.
pub open spec fn drawn_inputs<S: FreshSort, G: GeneratorShape + GeneratorTypes<S>>(g: G, next: nat) -> Seq<S::V> {
    match g.spec_input_types() {
        Some(t) => t,
        None => fresh_views::<S>(next, g.spec_arity()),
    }
}

/// The views of the sorts drawn for a generator's outputs: its own, or
/// made-up ones numbered after those of its inputs.
pub open spec fn drawn_outputs<S: FreshSort, G: GeneratorShape + GeneratorTypes<S>>(g: G, next: nat) -> Seq<S::V> {
    let k = if g.spec_input_types() is None {
        next + g.spec_arity()
    } else {
        next
    };
    match g.spec_output_types() {
        Some(t) => t,
        None => fresh_views::<S>(k, g.spec_coarity()),
    }
}

/// `count` made-up sorts numbered from `*next` on.
fn fresh_sorts<S: FreshSort>(next: &mut usize, count: usize) -> (r: Vec<S>)
    requires
        *old(next) + count <= usize::MAX,
    ensures
        r@.len() == count,
        r.deep_view() == fresh_views::<S>(*old(next) as nat, count as nat),
        *final(next) == *old(next) + count,
{
    let mut out: Vec<S> = Vec::new();
    let mut i: usize = 0;
    while i < count
        invariant
            i <= count,
            out@.len() == i,
            out.deep_view() =~= fresh_views::<S>(*old(next) as nat, i as nat),
            *next == *old(next) + i,
            *old(next) + count <= usize::MAX,
        decreases count - i,
    {
        let ghost before = out.deep_view();
        out.push(S::fresh_sort(*next));
        proof {
            assert(out.deep_view() =~= before.push(S::spec_fresh_sort(*next)));
            assert(fresh_views::<S>(*old(next) as nat, (i + 1) as nat) =~= fresh_views::<S>(
                *old(next) as nat,
                i as nat,
            ).push(S::spec_fresh_sort(*next)));
        }
        *next = *next + 1;
        i = i + 1;
    }
    out
}

/// A graph without hyperedges: the given nodes and interfaces.
pub open spec fn wiring_model<T, H>(nodes: Seq<T>, sources: Seq<usize>, targets: Seq<usize>) -> LaxGraphModel<T, H> {
    LaxGraphModel { nodes, sources, targets, ..LaxGraphModel::<T, H>::spec_empty() }
}

/// The node and edge labels of a graph taken by their deep views.
pub open spec fn lax_deep<O: DeepView, A: DeepView>(m: LaxGraphModel<O, A>) -> LaxGraphModel<O::V, A::V> {
    relabel(m, |x: O| x.deep_view(), |x: A| x.deep_view())
}

/// The drawing of a circuit, by the views of its labels: a node per wire
/// and a hyperedge per generator; identities, swaps, copies, discards and
/// joins are wirings of their nodes; sequential composition identifies
/// the targets of the first drawing with the sources of the second, and
/// parallel composition puts drawings side by side. Made-up sorts are
/// numbered from `next` on, left to right.
pub open spec fn circuit_drawing<S: FreshSort, G: DeepView + GeneratorShape + GeneratorTypes<S>>(
    c: Circuit<S, G>,
    next: nat,
) -> LaxGraphModel<S::V, G::V>
    decreases c,
{
    match c {
        Circuit::Id(s) => LaxGraphModel::spec_identity(seq![s.deep_view()]),
        Circuit::IdOne => LaxGraphModel::spec_empty(),
        Circuit::Generator(g) => LaxGraphModel::spec_singleton(
            g.deep_view(),
            drawn_inputs::<S, G>(g, next),
            drawn_outputs::<S, G>(g, next),
        ),
        Circuit::Swap { left, right } => wiring_model(
            seq![left.deep_view(), right.deep_view()],
            seq![0usize, 1usize],
            seq![1usize, 0usize],
        ),
        Circuit::Sequence(l, r) => circuit_drawing(*l, next).spec_compose(circuit_drawing(*r, next + circuit_fresh(*l))),
        Circuit::Product(l, r) => circuit_drawing(*l, next).spec_tensor(circuit_drawing(*r, next + circuit_fresh(*l))),
        Circuit::Copy(s) => wiring_model(seq![s.deep_view()], seq![0usize], seq![0usize, 0usize]),
        Circuit::Discard(s) => wiring_model(seq![s.deep_view()], seq![0usize], Seq::empty()),
        Circuit::Join(s) => wiring_model(seq![s.deep_view()], seq![0usize, 0usize], seq![0usize]),
    }
}

/// The views of a vector's labels, with the vector's own view.
proof fn lemma_vec_deep<S: DeepView>(v: Vec<S>)
    ensures
        v@.map_values(|x: S| x.deep_view()) == v.deep_view(),
{
    assert(v@.map_values(|x: S| x.deep_view()) =~= v.deep_view());
}

/// A graph of one node per label of `nodes`, all of them sources, with the
/// targets given by `targets` (numbers into `nodes`).
fn node_graph<O, A>(nodes: Vec<O>, sources: Vec<usize>, targets: Vec<usize>) -> (r: LaxGraph<O, A>)
    requires
        below(sources@, nodes@.len() as int),
        below(targets@, nodes@.len() as int),
    ensures
        r@ == (LaxGraphModel {
            nodes: nodes@,
            sources: sources@,
            targets: targets@,
            ..LaxGraphModel::<O, A>::spec_empty()
        }),
        r@.wf(),
{
    let mut graph = LaxGraph::empty();
    graph.nodes = nodes;
    graph.sources = sources;
    graph.targets = targets;
    proof {
        assert(graph@ =~= (LaxGraphModel {
            nodes: nodes@,
            sources: sources@,
            targets: targets@,
            ..LaxGraphModel::<O, A>::spec_empty()
        }));
    }
    graph
}

impl<S: Label + FreshSort, G: Label + GeneratorShape + GeneratorTypes<S>> Circuit<S, G> {
    /// The circuit drawn as a graph over its sorts, with made-up sorts,
    /// numbered from `*next` on, for wires of generators whose sorts are
    /// not known.
    pub fn to_hypergraph(&self, next: &mut usize) -> (r: LaxGraph<S, G>)
        requires
            circuit_wires(*self) is Some,
            *old(next) + circuit_fresh(*self) <= usize::MAX,
        ensures
            r@.wf(),
            lax_deep(r@) == circuit_drawing(*self, *old(next) as nat),
            circuit_wires(*self) == Some((r@.sources.len(), r@.targets.len())),
            *final(next) == *old(next) + circuit_fresh(*self),
        decreases self,
    {
        let ghost start = *next as nat;
        let ghost fs = |x: S| x.deep_view();
        let ghost fg = |x: G| x.deep_view();
        match self {
            Circuit::Id(sort) => {
                let labels = vec![sort.duplicate()];
                let r = LaxGraph::identity(labels);
                proof {
                    lemma_relabel_constructions(r@, r@, fs, fg);
                    assert(labels@.map_values(fs) =~= seq![sort.deep_view()]);
                }
                r
            },
            Circuit::IdOne => {
                let r = LaxGraph::empty();
                proof {
                    lemma_relabel_constructions(r@, r@, fs, fg);
                }
                r
            },
            Circuit::Generator(g) => {
                let inputs = match g.input_types() {
                    Some(types) => types,
                    None => fresh_sorts(next, g.arity()),
                };
                let outputs = match g.output_types() {
                    Some(types) => types,
                    None => fresh_sorts(next, g.coarity()),
                };
                let label = g.duplicate();
                let r = LaxGraph::singleton(label, inputs, outputs);
                proof {
                    lemma_relabel_constructions(r@, r@, fs, fg);
                    lemma_vec_deep(inputs);
                    lemma_vec_deep(outputs);
                    assert(inputs.deep_view() == drawn_inputs::<S, G>(*g, start));
                    assert(outputs.deep_view() == drawn_outputs::<S, G>(*g, start));
                }
                r
            },
            Circuit::Swap { left, right } => {
                let nodes = vec![left.duplicate(), right.duplicate()];
                let r = node_graph(nodes, vec![0, 1], vec![1, 0]);
                proof {
                    assert(lax_deep(r@).nodes =~= circuit_drawing(*self, start).nodes);
                    assert(lax_deep(r@).edges =~= circuit_drawing(*self, start).edges);
                    assert(lax_deep(r@).sources =~= circuit_drawing(*self, start).sources);
                    assert(lax_deep(r@).targets =~= circuit_drawing(*self, start).targets);
                    assert(lax_deep(r@) =~= circuit_drawing(*self, start));
                }
                r
            },
            Circuit::Sequence(left, right) => {
                let left_graph = left.to_hypergraph(next);
                let right_graph = right.to_hypergraph(next);
                let ghost (lg, rg) = (left_graph@, right_graph@);
                let r = compose_lax_unchecked(left_graph, right_graph);
                proof {
                    lemma_relabel_constructions(lg, rg, fs, fg);
                }
                r
            },
            Circuit::Product(left, right) => {
                let left_graph = left.to_hypergraph(next);
                let right_graph = right.to_hypergraph(next);
                let ghost (lg, rg) = (left_graph@, right_graph@);
                let r = left_graph.tensor(right_graph);
                proof {
                    lemma_relabel_constructions(lg, rg, fs, fg);
                }
                r
            },
            Circuit::Copy(sort) => {
                let r = node_graph(vec![sort.duplicate()], vec![0], vec![0, 0]);
                proof {
                    assert(lax_deep(r@).nodes =~= circuit_drawing(*self, start).nodes);
                    assert(lax_deep(r@).edges =~= circuit_drawing(*self, start).edges);
                    assert(lax_deep(r@).sources =~= circuit_drawing(*self, start).sources);
                    assert(lax_deep(r@).targets =~= circuit_drawing(*self, start).targets);
                    assert(lax_deep(r@) =~= circuit_drawing(*self, start));
                }
                r
            },
            Circuit::Discard(sort) => {
                let r = node_graph(vec![sort.duplicate()], vec![0], Vec::new());
                proof {
                    assert(lax_deep(r@).nodes =~= circuit_drawing(*self, start).nodes);
                    assert(lax_deep(r@).edges =~= circuit_drawing(*self, start).edges);
                    assert(lax_deep(r@).sources =~= circuit_drawing(*self, start).sources);
                    assert(lax_deep(r@).targets =~= circuit_drawing(*self, start).targets);
                    assert(lax_deep(r@) =~= circuit_drawing(*self, start));
                }
                r
            },
            Circuit::Join(sort) => {
                let r = node_graph(vec![sort.duplicate()], vec![0, 0], vec![0]);
                proof {
                    assert(lax_deep(r@).nodes =~= circuit_drawing(*self, start).nodes);
                    assert(lax_deep(r@).edges =~= circuit_drawing(*self, start).edges);
                    assert(lax_deep(r@).sources =~= circuit_drawing(*self, start).sources);
                    assert(lax_deep(r@).targets =~= circuit_drawing(*self, start).targets);
                    assert(lax_deep(r@) =~= circuit_drawing(*self, start));
                }
                r
            },
        }
    }
}

/// A hyperedge of a tape's drawing: the drawing of an embedded circuit, or
/// the drawings of the two factors of a product.
#[verifier::reject_recursive_types(S)]
#[derive(Debug)]
pub enum TapeEdge<S, G> {
    Embedded(LaxGraph<S, G>),
    Product(Box<LaxGraph<Monomial<S>, TapeEdge<S, G>>>, Box<LaxGraph<Monomial<S>, TapeEdge<S, G>>>),
}

/// Every node is a one-sort monomial.
pub open spec fn atom_nodes<S>(nodes: Seq<Monomial<S>>) -> bool {
    forall|i: int| 0 <= i < nodes.len() ==> #[trigger] nodes[i] is Atom
}

/// A drawing of a tape: a well-formed graph over one-sort monomials whose
/// hyperedges are drawn edges.
pub open spec fn drawn<S, G>(g: LaxGraph<Monomial<S>, TapeEdge<S, G>>) -> bool
    decreases g, 1int,
{
    &&& g@.wf()
    &&& atom_nodes(g@.nodes)
    &&& forall|e: int|
        0 <= e < g.edges@.len() ==> edge_drawn(#[trigger] g.edges@[e], g@.adjacency[e])
}

/// An embedded circuit's graph is well-formed; a product edge holds two
/// drawings and has as many nodes on each side as the two factors have.
pub open spec fn edge_drawn<S, G>(edge: TapeEdge<S, G>, adjacency: (Seq<usize>, Seq<usize>)) -> bool
    decreases edge, 0int,
{
    match edge {
        TapeEdge::Embedded(c) => c@.wf(),
        TapeEdge::Product(l, r) => {
            &&& drawn(*l)
            &&& drawn(*r)
            &&& adjacency.0.len() == l.sources@.len() + r.sources@.len()
            &&& adjacency.1.len() == l.targets@.len() + r.targets@.len()
        },
    }
}

/// A graph with the parts of two drawings side by side is a drawing.
proof fn lemma_drawn_side_by_side<S, G>(
    a: LaxGraph<Monomial<S>, TapeEdge<S, G>>,
    b: LaxGraph<Monomial<S>, TapeEdge<S, G>>,
    r: LaxGraph<Monomial<S>, TapeEdge<S, G>>,
)
    requires
        drawn(a),
        drawn(b),
        r@.wf(),
        r@.nodes == a@.nodes + b@.nodes,
        r.edges@ == a.edges@ + b.edges@,
        r@.adjacency == a@.spec_tensor(b@).adjacency,
    ensures
        drawn(r),
{
    let n = a@.nodes.len() as int;
    assert forall|i: int| 0 <= i < r@.nodes.len() implies #[trigger] r@.nodes[i] is Atom by {
        if i < n {
            assert(a@.nodes[i] is Atom);
        } else {
            assert(b@.nodes[i - n] is Atom);
        }
    }
    assert forall|e: int| 0 <= e < r.edges@.len() implies edge_drawn(#[trigger] r.edges@[e], r@.adjacency[e]) by {
        let na = a.edges@.len() as int;
        if e < na {
            assert(r.edges@[e] == a.edges@[e]);
            assert(r@.adjacency[e] == a@.adjacency[e]);
            assert(edge_drawn(a.edges@[e], a@.adjacency[e]));
        } else {
            let k = e - na;
            assert(r.edges@[e] == b.edges@[k]);
            assert(a@.adjacency.len() == na);
            assert(r@.adjacency[e] == (shifted(b@.adjacency[k].0, n), shifted(b@.adjacency[k].1, n)));
            assert(edge_drawn(b.edges@[k], b@.adjacency[k]));
        }
    }
}

/// A well-formed graph with the nodes, edges and adjacency of a drawing is
/// a drawing, whatever its quotient and interfaces.
proof fn lemma_drawn_same_parts<S, G>(g: LaxGraph<Monomial<S>, TapeEdge<S, G>>, r: LaxGraph<Monomial<S>, TapeEdge<S, G>>)
    requires
        drawn(g),
        r@.wf(),
        r@.nodes == g@.nodes,
        r.edges@ == g.edges@,
        r@.adjacency == g@.adjacency,
    ensures
        drawn(r),
{
    assert forall|e: int| 0 <= e < r.edges@.len() implies edge_drawn(#[trigger] r.edges@[e], r@.adjacency[e]) by {
        assert(edge_drawn(g.edges@[e], g@.adjacency[e]));
    }
}

/// A well-formed edgeless graph over one-sort monomials is a drawing.
proof fn lemma_drawn_edgeless<S, G>(g: LaxGraph<Monomial<S>, TapeEdge<S, G>>)
    requires
        g@.wf(),
        atom_nodes(g@.nodes),
        g.edges@.len() == 0,
    ensures
        drawn(g),
{
}

/// One edge between fresh nodes over one-sort monomials is a drawing when
/// the edge is drawn.
proof fn lemma_drawn_singleton<S, G>(
    label: TapeEdge<S, G>,
    a: Seq<Monomial<S>>,
    b: Seq<Monomial<S>>,
    r: LaxGraph<Monomial<S>, TapeEdge<S, G>>,
)
    requires
        r@ == LaxGraphModel::<Monomial<S>, TapeEdge<S, G>>::spec_singleton(label, a, b),
        r@.wf(),
        atom_nodes(a),
        atom_nodes(b),
        edge_drawn(label, (span(0, a.len() as int), span(a.len() as int, (a.len() + b.len()) as int))),
    ensures
        drawn(r),
{
    assert forall|i: int| 0 <= i < r@.nodes.len() implies #[trigger] r@.nodes[i] is Atom by {
        if i < a.len() {
            assert(a[i] is Atom);
        } else {
            assert(b[i - a.len()] is Atom);
        }
    }
    assert(r.edges@[0] == label);
}

/// The numbers of source and target nodes of a tape's drawing; `None` when
/// a sequential composition joins different numbers of wires or a trace
/// goes around more wires than there are.
pub open spec fn tape_wires<S: DeepView, G: GeneratorShape + GeneratorTypes<S>>(t: Tape<S, G>) -> Option<(nat, nat)>
    decreases t,
{
    match t {
        Tape::Id(m) => Some((monomial_view(m).sorts().len(), monomial_view(m).sorts().len())),
        Tape::IdZero => Some((0, 0)),
        Tape::EmbedCircuit(c) => circuit_wires(*c),
        Tape::Swap { left, right } => Some(
            (
                monomial_view(left).sorts().len() + monomial_view(right).sorts().len(),
                monomial_view(left).sorts().len() + monomial_view(right).sorts().len(),
            ),
        ),
        Tape::Trace { around, tape } => match tape_wires(*tape) {
            Some((i, o)) => {
                let a = monomial_view(around).sorts().len();
                if i >= a && o >= a {
                    Some(((i - a) as nat, (o - a) as nat))
                } else {
                    None
                }
            },
            None => None,
        },
        Tape::Sequence(l, r) => match (tape_wires(*l), tape_wires(*r)) {
            (Some((li, lo)), Some((ri, ro))) => if lo == ri {
                Some((li, ro))
            } else {
                None
            },
            _ => None,
        },
        Tape::Product(l, r) => match (tape_wires(*l), tape_wires(*r)) {
            (Some((li, lo)), Some((ri, ro))) => Some((li + ri, lo + ro)),
            _ => None,
        },
        Tape::Sum(l, r) => match (tape_wires(*l), tape_wires(*r)) {
            (Some((li, lo)), Some((ri, ro))) => Some((li + ri, lo + ro)),
            _ => None,
        },
        Tape::Discard(m) => Some((monomial_view(m).sorts().len(), 0)),
        Tape::Split(m) => Some((monomial_view(m).sorts().len(), 2 * monomial_view(m).sorts().len())),
        Tape::Create(m) => Some((0, monomial_view(m).sorts().len())),
        Tape::Merge(m) => Some((2 * monomial_view(m).sorts().len(), monomial_view(m).sorts().len())),
    }
}

/// The number of made-up sorts a tape's drawing needs.
pub open spec fn tape_fresh<S: DeepView, G: GeneratorShape + GeneratorTypes<S>>(t: Tape<S, G>) -> nat
    decreases t,
{
    match t {
        Tape::EmbedCircuit(c) => circuit_fresh(*c),
        Tape::Trace { around, tape } => tape_fresh(*tape),
        Tape::Sequence(l, r) => tape_fresh(*l) + tape_fresh(*r),
        Tape::Product(l, r) => tape_fresh(*l) + tape_fresh(*r),
        Tape::Sum(l, r) => tape_fresh(*l) + tape_fresh(*r),
        _ => 0,
    }
}

/// The labels of the nodes numbered by `ids`, each as a one-sort monomial.
fn atoms_at<S: Label>(nodes: &Vec<S>, ids: &Vec<usize>) -> (r: Vec<Monomial<S>>)
    requires
        below(ids@, nodes@.len() as int),
    ensures
        r@.len() == ids@.len(),
        atom_nodes(r@),
        monomial_views(r@) == atoms_seq(labels_of(nodes@.map_values(|x: S| x.deep_view()), ids@)),
{
    let ghost dv = nodes@.map_values(|x: S| x.deep_view());
    let mut out: Vec<Monomial<S>> = Vec::new();
    let mut i: usize = 0;
    while i < ids.len()
        invariant
            i <= ids@.len(),
            below(ids@, nodes@.len() as int),
            dv == nodes@.map_values(|x: S| x.deep_view()),
            out@.len() == i,
            atom_nodes(out@),
            monomial_views(out@) =~= atoms_seq(labels_of(dv, ids@.subrange(0, i as int))),
        decreases ids@.len() - i,
    {
        let ghost before = out@;
        out.push(Monomial::Atom(nodes[ids[i]].duplicate()));
        proof {
            assert(monomial_views(out@) =~= monomial_views(before).push(Monomial::Atom(dv[ids@[i as int] as int])));
            assert(ids@.subrange(0, i + 1) =~= ids@.subrange(0, i as int).push(ids@[i as int]));
            assert(atoms_seq(labels_of(dv, ids@.subrange(0, i + 1))) =~= atoms_seq(
                labels_of(dv, ids@.subrange(0, i as int)),
            ).push(Monomial::Atom(dv[ids@[i as int] as int])));
        }
        i = i + 1;
    }
    proof {
        assert(ids@.subrange(0, ids@.len() as int) =~= ids@);
    }
    out
}

/// The labels of the nodes numbered by `ids`.
fn labels_at<S: Label>(nodes: &Vec<Monomial<S>>, ids: &Vec<usize>) -> (r: Vec<Monomial<S>>)
    requires
        below(ids@, nodes@.len() as int),
        atom_nodes(nodes@),
    ensures
        r@.len() == ids@.len(),
        atom_nodes(r@),
        monomial_views(r@) == labels_of(monomial_views(nodes@), ids@),
{
    let mut out: Vec<Monomial<S>> = Vec::new();
    let mut i: usize = 0;
    while i < ids.len()
        invariant
            i <= ids@.len(),
            below(ids@, nodes@.len() as int),
            atom_nodes(nodes@),
            out@.len() == i,
            atom_nodes(out@),
            monomial_views(out@) =~= labels_of(monomial_views(nodes@), ids@.subrange(0, i as int)),
        decreases ids@.len() - i,
    {
        let ghost before = out@;
        let m = nodes[ids[i]].duplicate();
        proof {
            assert(nodes@[ids@[i as int] as int] is Atom);
            assert(monomial_view(m) == monomial_view(nodes@[ids@[i as int] as int]));
        }
        out.push(m);
        proof {
            assert(monomial_views(out@) =~= monomial_views(before).push(monomial_view(m)));
            assert(ids@.subrange(0, i + 1) =~= ids@.subrange(0, i as int).push(ids@[i as int]));
            assert(labels_of(monomial_views(nodes@), ids@.subrange(0, i + 1)) =~= labels_of(
                monomial_views(nodes@),
                ids@.subrange(0, i as int),
            ).push(monomial_views(nodes@)[ids@[i as int] as int]));
        }
        i = i + 1;
    }
    proof {
        assert(ids@.subrange(0, ids@.len() as int) =~= ids@);
    }
    out
}

/// The atoms of a monomial, as many as its sorts.
fn atoms_of<S: Label>(m: &Monomial<S>) -> (r: Vec<Monomial<S>>)
    ensures
        r@.len() == monomial_view(*m).sorts().len(),
        monomial_views(r@) == atoms_seq(monomial_view(*m).sorts()),
        atom_nodes(r@),
{
    let atoms = monomial_atoms(m);
    proof {
        let vs = monomial_view(*m).sorts();
        assert(monomial_views(atoms@).len() == atoms@.len());
        assert forall|i: int| 0 <= i < atoms@.len() implies #[trigger] atoms@[i] is Atom by {
            assert(monomial_views(atoms@)[i] == monomial_view(atoms@[i]));
            assert(vs.map_values(|s: S::V| Monomial::Atom(s))[i] == Monomial::Atom(vs[i]));
        }
        assert(vs.map_values(|s: S::V| Monomial::Atom(s)) =~= atoms_seq(vs));
    }
    atoms
}

/// Two copies of the numbers `0, .., n - 1`, one after the other.
fn twice(n: usize) -> (r: Vec<usize>)
    ensures
        r@ == span(0, n as int) + span(0, n as int),
{
    let mut first = span_vec(0, n);
    let mut second = span_vec(0, n);
    first.append(&mut second);
    first
}

/// Each label as a one-sort monomial.
pub open spec fn atoms_seq<T>(s: Seq<T>) -> Seq<Monomial<T>> {
    s.map_values(|x: T| Monomial::Atom(x))
}

/// The labels of the nodes numbered by `ids`.
pub open spec fn labels_of<T>(nodes: Seq<T>, ids: Seq<usize>) -> Seq<T> {
    ids.map_values(|i: usize| nodes[i as int])
}

/// The shape of a tape's drawing: its nodes by their views, its structure,
/// and a mark for each hyperedge.
pub open spec fn drawing_shape<S: DeepView, G>(m: LaxGraphModel<Monomial<S>, TapeEdge<S, G>>) -> LaxGraphModel<
    Monomial<S::V>,
    (),
> {
    relabel(m, |x: Monomial<S>| monomial_view(x), |e: TapeEdge<S, G>| ())
}

/// The shape of the drawing of a tape: a node per atom of its interfaces;
/// identities, swaps and the structural boxes are wirings of their nodes;
/// an embedded circuit other than an identity is one hyperedge between
/// the atoms of its drawing's interfaces, and so is a product of tapes,
/// between the interfaces of its factors' drawings; a trace identifies the
/// first wires of its tape's interfaces; sequences compose drawings and
/// sums put them side by side. Made-up sorts are numbered from `next` on.
pub open spec fn tape_shape<S: FreshSort, G: DeepView + GeneratorShape + GeneratorTypes<S>>(
    t: Tape<S, G>,
    next: nat,
) -> LaxGraphModel<Monomial<S::V>, ()>
    decreases t,
{
    match t {
        Tape::Id(m) => LaxGraphModel::spec_identity(atoms_seq(monomial_view(m).sorts())),
        Tape::IdZero => LaxGraphModel::spec_empty(),
        Tape::EmbedCircuit(c) => match *c {
            Circuit::Id(s) => LaxGraphModel::spec_identity(seq![Monomial::Atom(s.deep_view())]),
            Circuit::IdOne => LaxGraphModel::spec_empty(),
            _ => {
                let cm = circuit_drawing(*c, next);
                LaxGraphModel::spec_singleton(
                    (),
                    atoms_seq(labels_of(cm.nodes, cm.sources)),
                    atoms_seq(labels_of(cm.nodes, cm.targets)),
                )
            },
        },
        Tape::Swap { left, right } => {
            let a = atoms_seq(monomial_view(left).sorts());
            let b = atoms_seq(monomial_view(right).sorts());
            let n = (a.len() + b.len()) as int;
            wiring_model(a + b, span(0, n), span(a.len() as int, n) + span(0, a.len() as int))
        },
        Tape::Trace { around, tape } => {
            let inner = tape_shape(*tape, next);
            let k = monomial_view(around).sorts().len() as int;
            LaxGraphModel {
                quotient: inner.quotient + Seq::new(k as nat, |i: int| (inner.sources[i], inner.targets[i])),
                sources: inner.sources.skip(k),
                targets: inner.targets.skip(k),
                ..inner
            }
        },
        Tape::Sequence(l, r) => tape_shape(*l, next).spec_compose(tape_shape(*r, next + tape_fresh(*l))),
        Tape::Product(l, r) => {
            let a = tape_shape(*l, next);
            let b = tape_shape(*r, next + tape_fresh(*l));
            LaxGraphModel::spec_singleton(
                (),
                labels_of(a.nodes, a.sources) + labels_of(b.nodes, b.sources),
                labels_of(a.nodes, a.targets) + labels_of(b.nodes, b.targets),
            )
        },
        Tape::Sum(l, r) => tape_shape(*l, next).spec_tensor(tape_shape(*r, next + tape_fresh(*l))),
        Tape::Discard(m) => {
            let a = atoms_seq(monomial_view(m).sorts());
            wiring_model(a, span(0, a.len() as int), Seq::empty())
        },
        Tape::Split(m) => {
            let a = atoms_seq(monomial_view(m).sorts());
            wiring_model(a, span(0, a.len() as int), span(0, a.len() as int) + span(0, a.len() as int))
        },
        Tape::Create(m) => {
            let a = atoms_seq(monomial_view(m).sorts());
            wiring_model(a, Seq::empty(), span(0, a.len() as int))
        },
        Tape::Merge(m) => {
            let a = atoms_seq(monomial_view(m).sorts());
            wiring_model(a, span(0, a.len() as int) + span(0, a.len() as int), span(0, a.len() as int))
        },
    }
}

/// `g` is the drawing of the tape `t` with made-up sorts numbered from
/// `next`: it has the tape's shape, and its hyperedges hold the drawings
/// of the tape's embedded circuits and of its products' factors.
pub open spec fn tape_drawing<S: FreshSort, G: DeepView + GeneratorShape + GeneratorTypes<S>>(
    t: Tape<S, G>,
    next: nat,
    g: LaxGraph<Monomial<S>, TapeEdge<S, G>>,
) -> bool
    decreases t, 1int,
{
    drawing_shape(g@) == tape_shape(t, next) && drawn_edges(t, next, g.edges@)
}

/// The number of hyperedges of a tape's drawing.
pub open spec fn edge_count<S, G>(t: Tape<S, G>) -> nat
    decreases t,
{
    match t {
        Tape::EmbedCircuit(c) => match *c {
            Circuit::Id(_) => 0,
            Circuit::IdOne => 0,
            _ => 1,
        },
        Tape::Trace { tape, .. } => edge_count(*tape),
        Tape::Sequence(l, r) => edge_count(*l) + edge_count(*r),
        Tape::Sum(l, r) => edge_count(*l) + edge_count(*r),
        Tape::Product(..) => 1,
        _ => 0,
    }
}

/// The shape of a tape's drawing has as many hyperedges as its drawing.
proof fn lemma_shape_edges<S: FreshSort, G: DeepView + GeneratorShape + GeneratorTypes<S>>(t: Tape<S, G>, next: nat)
    ensures
        tape_shape(t, next).edges.len() == edge_count(t),
    decreases t,
{
    match t {
        Tape::Trace { tape, .. } => lemma_shape_edges(*tape, next),
        Tape::Sequence(l, r) => {
            lemma_shape_edges(*l, next);
            lemma_shape_edges(*r, next + tape_fresh(*l));
        },
        Tape::Sum(l, r) => {
            lemma_shape_edges(*l, next);
            lemma_shape_edges(*r, next + tape_fresh(*l));
        },
        _ => {},
    }
}

/// The hyperedges of the drawing of `t`, left to right: an embedded circuit
/// other than an identity holds its circuit's drawing, a product holds the
/// drawings of its factors, and the parts of a sequence or sum come one
/// after the other.
pub open spec fn drawn_edges<S: FreshSort, G: DeepView + GeneratorShape + GeneratorTypes<S>>(
    t: Tape<S, G>,
    next: nat,
    edges: Seq<TapeEdge<S, G>>,
) -> bool
    decreases t, 0int,
{
    match t {
        Tape::EmbedCircuit(c) => match *c {
            Circuit::Id(_) => edges.len() == 0,
            Circuit::IdOne => edges.len() == 0,
            _ => {
                &&& edges.len() == 1
                &&& edges[0] matches TapeEdge::Embedded(cg)
                &&& lax_deep(cg@) == circuit_drawing(*c, next)
            },
        },
        Tape::Trace { tape, .. } => drawn_edges(*tape, next, edges),
        Tape::Sequence(l, r) => {
            &&& edge_count(*l) <= edges.len()
            &&& drawn_edges(*l, next, edges.take(edge_count(*l) as int))
            &&& drawn_edges(*r, next + tape_fresh(*l), edges.skip(edge_count(*l) as int))
        },
        Tape::Sum(l, r) => {
            &&& edge_count(*l) <= edges.len()
            &&& drawn_edges(*l, next, edges.take(edge_count(*l) as int))
            &&& drawn_edges(*r, next + tape_fresh(*l), edges.skip(edge_count(*l) as int))
        },
        Tape::Product(l, r) => {
            &&& edges.len() == 1
            &&& edges[0] matches TapeEdge::Product(a, b)
            &&& tape_drawing(*l, next, *a)
            &&& tape_drawing(*r, next + tape_fresh(*l), *b)
        },
        _ => edges.len() == 0,
    }
}

/// The edges of two drawings one after the other are drawn for a sequence
/// or sum of their tapes.
proof fn lemma_drawn_edges_concat<S: FreshSort, G: DeepView + GeneratorShape + GeneratorTypes<S>>(
    t: Tape<S, G>,
    next: nat,
    a: Seq<TapeEdge<S, G>>,
    b: Seq<TapeEdge<S, G>>,
)
    requires
        t is Sequence || t is Sum,
        t matches Tape::Sequence(l, r) ==> a.len() == edge_count(*l) && drawn_edges(*l, next, a) && drawn_edges(
            *r,
            next + tape_fresh(*l),
            b,
        ),
        t matches Tape::Sum(l, r) ==> a.len() == edge_count(*l) && drawn_edges(*l, next, a) && drawn_edges(
            *r,
            next + tape_fresh(*l),
            b,
        ),
    ensures
        drawn_edges(t, next, a + b),
{
    let k = a.len() as int;
    assert((a + b).take(k) =~= a);
    assert((a + b).skip(k) =~= b);
}

impl<S: Label + FreshSort, G: Label + GeneratorShape + GeneratorTypes<S>> Tape<S, G> {
    /// The tape drawn as a graph over monomial atoms, with made-up sorts,
    /// numbered from `*next` on, for wires of generators whose sorts are
    /// not known.
    #[verifier::spinoff_prover]
    #[verifier::rlimit(40)]
    pub fn to_hypergraph(&self, next: &mut usize) -> (r: LaxGraph<Monomial<S>, TapeEdge<S, G>>)
        requires
            tape_wires(*self) is Some,
            *old(next) + tape_fresh(*self) <= usize::MAX,
        ensures
            r@.wf(),
            drawn(r),
            tape_drawing(*self, *old(next) as nat, r),
            tape_wires(*self) == Some((r@.sources.len(), r@.targets.len())),
            *final(next) == *old(next) + tape_fresh(*self),
        decreases self,
    {
        let ghost start = *next as nat;
        let ghost fm = |x: Monomial<S>| monomial_view(x);
        let ghost fe = |e: TapeEdge<S, G>| ();
        match self {
            Tape::Id(mono) => {
                let nodes = atoms_of(mono);
                let r = LaxGraph::identity(nodes);
                proof {
                    lemma_drawn_edgeless(r);
                    lemma_relabel_constructions(r@, r@, fm, fe);
                    assert(nodes@.map_values(fm) =~= monomial_views(nodes@));
                }
                r
            },
            Tape::IdZero => {
                let r = LaxGraph::empty();
                proof {
                    lemma_drawn_edgeless(r);
                    lemma_relabel_constructions(r@, r@, fm, fe);
                }
                r
            },
            Tape::EmbedCircuit(circuit) => match &**circuit {
                Circuit::Id(sort) => {
                    let nodes = vec![Monomial::Atom(sort.duplicate())];
                    let r = LaxGraph::identity(nodes);
                    proof {
                        lemma_drawn_edgeless(r);
                        lemma_relabel_constructions(r@, r@, fm, fe);
                        assert(nodes@.map_values(fm) =~= seq![Monomial::Atom(sort.deep_view())]);
                    }
                    r
                },
                Circuit::IdOne => {
                    let r = LaxGraph::empty();
                    proof {
                        lemma_drawn_edgeless(r);
                        lemma_relabel_constructions(r@, r@, fm, fe);
                    }
                    r
                },
                _ => {
                    let child = circuit.to_hypergraph(next);
                    let sources = atoms_at(&child.nodes, &child.sources);
                    let targets = atoms_at(&child.nodes, &child.targets);
                    let ghost edge = TapeEdge::<S, G>::Embedded(child);
                    let ghost cm = child@;
                    let r = LaxGraph::singleton(TapeEdge::Embedded(child), sources, targets);
                    proof {
                        lemma_drawn_singleton(edge, sources@, targets@, r);
                        lemma_relabel_constructions(r@, r@, fm, fe);
                        assert(lax_deep(cm).nodes == cm.nodes.map_values(|x: S| x.deep_view()));
                        assert(sources@.map_values(fm) =~= monomial_views(sources@));
                        assert(targets@.map_values(fm) =~= monomial_views(targets@));
                        assert(r.edges@ =~= seq![edge]);
                    }
                    r
                },
            },
            Tape::Swap { left, right } => {
                let mut nodes = atoms_of(left);
                let mut rest = atoms_of(right);
                let ghost (a, b) = (nodes@, rest@);
                let nl = nodes.len();
                nodes.append(&mut rest);
                let total = nodes.len();
                let sources = span_vec(0, total);
                let mut targets = span_vec(nl, total);
                let mut back = span_vec(0, nl);
                targets.append(&mut back);
                let r = node_graph(nodes, sources, targets);
                proof {
                    lemma_drawn_edgeless(r);
                    assert(monomial_views(a + b) =~= monomial_views(a) + monomial_views(b));
                    assert(drawing_shape(r@).nodes =~= tape_shape(*self, start).nodes);
                    assert(drawing_shape(r@).edges =~= tape_shape(*self, start).edges);
                    assert(drawing_shape(r@) =~= tape_shape(*self, start));
                }
                r
            },
            Tape::Trace { around, tape } => {
                let mut graph = tape.to_hypergraph(next);
                let ghost graph_start = graph;
                let around_len = atoms_of(around).len();
                let ghost start_model = graph@;
                let mut i: usize = 0;
                while i < around_len
                    invariant
                        i <= around_len,
                        around_len <= start_model.sources.len(),
                        around_len <= start_model.targets.len(),
                        graph@.wf(),
                        graph@.sources == start_model.sources,
                        graph@.targets == start_model.targets,
                        graph@.nodes == start_model.nodes,
                        graph@.adjacency == start_model.adjacency,
                        graph@.quotient == start_model.quotient + Seq::new(
                            i as nat,
                            |k: int| (start_model.sources[k], start_model.targets[k]),
                        ),
                        graph.edges@ == graph_start.edges@,
                        start_model == graph_start@,
                    decreases around_len - i,
                {
                    let u = graph.sources[i];
                    let v = graph.targets[i];
                    graph.unify(u, v);
                    proof {
                        assert(start_model.quotient + Seq::new(
                            (i + 1) as nat,
                            |k: int| (start_model.sources[k], start_model.targets[k]),
                        ) =~= (start_model.quotient + Seq::new(
                            i as nat,
                            |k: int| (start_model.sources[k], start_model.targets[k]),
                        )).push((u, v)));
                    }
                    i = i + 1;
                }
                let ghost unified = graph@;
                let sources = graph.sources.split_off(around_len);
                let targets = graph.targets.split_off(around_len);
                let r = LaxGraph {
                    nodes: graph.nodes,
                    edges: graph.edges,
                    adjacency: graph.adjacency,
                    quotient: graph.quotient,
                    sources,
                    targets,
                };
                proof {
                    assert(r@ == (LaxGraphModel { sources: sources@, targets: targets@, ..unified }));
                    assert(below(r@.sources, r@.nodes.len() as int));
                    assert(below(r@.targets, r@.nodes.len() as int));
                    lemma_drawn_same_parts(graph_start, r);
                    let k = around_len as int;
                    assert(sources@ =~= start_model.sources.skip(k));
                    assert(targets@ =~= start_model.targets.skip(k));
                    assert(drawing_shape(r@) =~= tape_shape(*self, start));
                    assert(r.edges@ == graph_start.edges@);
                }
                r
            },
            Tape::Sequence(left, right) => {
                let left_graph = left.to_hypergraph(next);
                let right_graph = right.to_hypergraph(next);
                let ghost (lg, rg) = (left_graph, right_graph);
                let r = compose_lax_unchecked(left_graph, right_graph);
                proof {
                    lemma_drawn_side_by_side(lg, rg, r);
                    lemma_relabel_constructions(lg@, rg@, fm, fe);
                    lemma_shape_edges(**left, start);
                    assert(drawing_shape(lg@).edges.len() == lg.edges@.len());
                    lemma_drawn_edges_concat(*self, start, lg.edges@, rg.edges@);
                    assert(r.edges@ == lg.edges@ + rg.edges@);
                }
                r
            },
            Tape::Product(left, right) => {
                let left_graph = left.to_hypergraph(next);
                let right_graph = right.to_hypergraph(next);
                let mut sources = labels_at(&left_graph.nodes, &left_graph.sources);
                let mut right_sources = labels_at(&right_graph.nodes, &right_graph.sources);
                let ghost (s1, s2) = (sources@, right_sources@);
                sources.append(&mut right_sources);
                let mut targets = labels_at(&left_graph.nodes, &left_graph.targets);
                let mut right_targets = labels_at(&right_graph.nodes, &right_graph.targets);
                let ghost (t1, t2) = (targets@, right_targets@);
                targets.append(&mut right_targets);
                let ghost edge = TapeEdge::<S, G>::Product(Box::new(left_graph), Box::new(right_graph));
                let ghost (lg, rg) = (left_graph, right_graph);
                let r = LaxGraph::singleton(TapeEdge::Product(Box::new(left_graph), Box::new(right_graph)), sources, targets);
                proof {
                    lemma_drawn_singleton(edge, sources@, targets@, r);
                    lemma_relabel_constructions(r@, r@, fm, fe);
                    assert(lg@.nodes.map_values(fm) =~= monomial_views(lg@.nodes));
                    assert(rg@.nodes.map_values(fm) =~= monomial_views(rg@.nodes));
                    assert(sources@.map_values(fm) =~= monomial_views(s1) + monomial_views(s2));
                    assert(targets@.map_values(fm) =~= monomial_views(t1) + monomial_views(t2));
                    assert(r.edges@ =~= seq![edge]);
                }
                r
            },
            Tape::Sum(left, right) => {
                let left_graph = left.to_hypergraph(next);
                let right_graph = right.to_hypergraph(next);
                let ghost (lg, rg) = (left_graph, right_graph);
                let r = left_graph.tensor(right_graph);
                proof {
                    lemma_drawn_side_by_side(lg, rg, r);
                    lemma_relabel_constructions(lg@, rg@, fm, fe);
                    lemma_shape_edges(**left, start);
                    assert(drawing_shape(lg@).edges.len() == lg.edges@.len());
                    lemma_drawn_edges_concat(*self, start, lg.edges@, rg.edges@);
                    assert(r.edges@ == lg.edges@ + rg.edges@);
                }
                r
            },
            Tape::Discard(mono) => {
                let nodes = atoms_of(mono);
                let n = nodes.len();
                let r = node_graph(nodes, span_vec(0, n), Vec::new());
                proof {
                    lemma_drawn_edgeless(r);
                    lemma_wiring_shape(r, *self, start);
                }
                r
            },
            Tape::Split(mono) => {
                let nodes = atoms_of(mono);
                let n = nodes.len();
                let r = node_graph(nodes, span_vec(0, n), twice(n));
                proof {
                    lemma_drawn_edgeless(r);
                    lemma_wiring_shape(r, *self, start);
                }
                r
            },
            Tape::Create(mono) => {
                let nodes = atoms_of(mono);
                let n = nodes.len();
                let r = node_graph(nodes, Vec::new(), span_vec(0, n));
                proof {
                    lemma_drawn_edgeless(r);
                    lemma_wiring_shape(r, *self, start);
                }
                r
            },
            Tape::Merge(mono) => {
                let nodes = atoms_of(mono);
                let n = nodes.len();
                let r = node_graph(nodes, twice(n), span_vec(0, n));
                proof {
                    lemma_drawn_edgeless(r);
                    lemma_wiring_shape(r, *self, start);
                }
                r
            },
        }
    }
}

/// An edgeless graph with the nodes and interfaces of a structural box's
/// shape is its drawing.
proof fn lemma_wiring_shape<S: FreshSort, G: DeepView + GeneratorShape + GeneratorTypes<S>>(
    r: LaxGraph<Monomial<S>, TapeEdge<S, G>>,
    t: Tape<S, G>,
    next: nat,
)
    requires
        t is Discard || t is Split || t is Create || t is Merge,
        r.edges@.len() == 0,
        r@.adjacency.len() == 0,
        r@.quotient.len() == 0,
        monomial_views(r@.nodes) == tape_shape(t, next).nodes,
        r@.sources == tape_shape(t, next).sources,
        r@.targets == tape_shape(t, next).targets,
    ensures
        tape_drawing(t, next, r),
{
    let shape = tape_shape(t, next);
    assert(drawing_shape(r@).nodes =~= shape.nodes);
    assert(drawing_shape(r@).edges =~= shape.edges);
    assert(drawing_shape(r@).adjacency =~= shape.adjacency);
    assert(drawing_shape(r@).quotient =~= shape.quotient);
    assert(drawing_shape(r@) =~= shape);
}

/// Whether every wire count met while counting a circuit's wires fits in
/// `usize`: the sums of the parallel compositions, inside and at the top.
pub open spec fn circuit_counts_fit<S: DeepView, G: GeneratorShape + GeneratorTypes<S>>(c: Circuit<S, G>) -> bool
    decreases c,
{
    match c {
        Circuit::Sequence(l, r) => circuit_counts_fit(*l) && circuit_counts_fit(*r),
        Circuit::Product(l, r) => {
            &&& circuit_counts_fit(*l)
            &&& circuit_counts_fit(*r)
            &&& (circuit_wires(c) matches Some((i, o)) ==> i <= usize::MAX && o <= usize::MAX)
        },
        _ => true,
    }
}

/// Whether every wire count met while counting a tape's wires fits in
/// `usize`.
pub open spec fn tape_counts_fit<S: DeepView, G: GeneratorShape + GeneratorTypes<S>>(t: Tape<S, G>) -> bool
    decreases t,
{
    match t {
        Tape::EmbedCircuit(c) => circuit_counts_fit(*c),
        Tape::Swap { left, right } => monomial_view(left).sorts().len() + monomial_view(right).sorts().len()
            <= usize::MAX,
        Tape::Trace { around, tape } => tape_counts_fit(*tape),
        Tape::Sequence(l, r) => tape_counts_fit(*l) && tape_counts_fit(*r),
        Tape::Product(l, r) => {
            &&& tape_counts_fit(*l)
            &&& tape_counts_fit(*r)
            &&& (tape_wires(t) matches Some((i, o)) ==> i <= usize::MAX && o <= usize::MAX)
        },
        Tape::Sum(l, r) => {
            &&& tape_counts_fit(*l)
            &&& tape_counts_fit(*r)
            &&& (tape_wires(t) matches Some((i, o)) ==> i <= usize::MAX && o <= usize::MAX)
        },
        Tape::Split(m) => 2 * monomial_view(m).sorts().len() <= usize::MAX,
        Tape::Merge(m) => 2 * monomial_view(m).sorts().len() <= usize::MAX,
        _ => true,
    }
}

/// The sum of two counts, when it fits in `usize`.
fn add_counts(a: Option<usize>, b: Option<usize>) -> (r: Option<usize>)
    ensures
        r matches Some(n) ==> a matches Some(x) && b matches Some(y) && n == x + y,
        (a is Some && b is Some && a.unwrap() + b.unwrap() <= usize::MAX) ==> r is Some,
{
    match (a, b) {
        (Some(x), Some(y)) => x.checked_add(y),
        _ => None,
    }
}

impl<S: Label, G: GeneratorShape + GeneratorTypes<S>> Circuit<S, G> {
    /// The numbers of source and target nodes of the circuit's drawing, when
    /// they exist and fit in `usize`.
    pub fn wire_counts(&self) -> (r: Option<(usize, usize)>)
        ensures
            r matches Some((i, o)) ==> circuit_wires(*self) == Some((i as nat, o as nat)),
            r is Some <==> circuit_wires(*self) is Some && circuit_counts_fit(*self),
        decreases self,
    {
        match self {
            Circuit::Id(_) => Some((1, 1)),
            Circuit::IdOne => Some((0, 0)),
            Circuit::Generator(g) => {
                let i = match g.input_types() {
                    Some(t) => t.len(),
                    None => g.arity(),
                };
                let o = match g.output_types() {
                    Some(t) => t.len(),
                    None => g.coarity(),
                };
                Some((i, o))
            },
            Circuit::Swap { .. } => Some((2, 2)),
            Circuit::Sequence(l, r) => match (l.wire_counts(), r.wire_counts()) {
                (Some((li, lo)), Some((ri, ro))) => if lo == ri {
                    Some((li, ro))
                } else {
                    None
                },
                _ => None,
            },
            Circuit::Product(l, r) => match (l.wire_counts(), r.wire_counts()) {
                (Some((li, lo)), Some((ri, ro))) => match (li.checked_add(ri), lo.checked_add(ro)) {
                    (Some(i), Some(o)) => Some((i, o)),
                    _ => None,
                },
                _ => None,
            },
            Circuit::Copy(_) => Some((1, 2)),
            Circuit::Discard(_) => Some((1, 0)),
            Circuit::Join(_) => Some((2, 1)),
        }
    }

    /// The number of made-up sorts the circuit's drawing needs, when it fits
    /// in `usize`.
    pub fn fresh_count(&self) -> (r: Option<usize>)
        ensures
            r matches Some(n) ==> n == circuit_fresh(*self),
            r is Some <==> circuit_fresh(*self) <= usize::MAX,
        decreases self,
    {
        match self {
            Circuit::Generator(g) => {
                let i: usize = if g.input_types().is_none() {
                    g.arity()
                } else {
                    0
                };
                let o: usize = if g.output_types().is_none() {
                    g.coarity()
                } else {
                    0
                };
                i.checked_add(o)
            },
            Circuit::Sequence(l, r) => add_counts(l.fresh_count(), r.fresh_count()),
            Circuit::Product(l, r) => add_counts(l.fresh_count(), r.fresh_count()),
            _ => Some(0),
        }
    }
}

impl<S: Label, G: GeneratorShape + GeneratorTypes<S>> Tape<S, G> {
    /// The numbers of source and target nodes of the tape's drawing, when
    /// they exist and fit in `usize`.
    pub fn wire_counts(&self) -> (r: Option<(usize, usize)>)
        ensures
            r matches Some((i, o)) ==> tape_wires(*self) == Some((i as nat, o as nat)),
            r is Some <==> tape_wires(*self) is Some && tape_counts_fit(*self),
        decreases self,
    {
        match self {
            Tape::Id(m) => {
                let k = atoms_of(m).len();
                Some((k, k))
            },
            Tape::IdZero => Some((0, 0)),
            Tape::EmbedCircuit(c) => c.wire_counts(),
            Tape::Swap { left, right } => {
                let k = atoms_of(left).len().checked_add(atoms_of(right).len());
                match k {
                    Some(k) => Some((k, k)),
                    None => None,
                }
            },
            Tape::Trace { around, tape } => match tape.wire_counts() {
                Some((i, o)) => {
                    let a = atoms_of(around).len();
                    if i >= a && o >= a {
                        Some((i - a, o - a))
                    } else {
                        None
                    }
                },
                None => None,
            },
            Tape::Sequence(l, r) => match (l.wire_counts(), r.wire_counts()) {
                (Some((li, lo)), Some((ri, ro))) => if lo == ri {
                    Some((li, ro))
                } else {
                    None
                },
                _ => None,
            },
            Tape::Product(l, r) => match (l.wire_counts(), r.wire_counts()) {
                (Some((li, lo)), Some((ri, ro))) => match (li.checked_add(ri), lo.checked_add(ro)) {
                    (Some(i), Some(o)) => Some((i, o)),
                    _ => None,
                },
                _ => None,
            },
            Tape::Sum(l, r) => match (l.wire_counts(), r.wire_counts()) {
                (Some((li, lo)), Some((ri, ro))) => match (li.checked_add(ri), lo.checked_add(ro)) {
                    (Some(i), Some(o)) => Some((i, o)),
                    _ => None,
                },
                _ => None,
            },
            Tape::Discard(m) => Some((atoms_of(m).len(), 0)),
            Tape::Split(m) => {
                let k = atoms_of(m).len();
                match k.checked_add(k) {
                    Some(d) => Some((k, d)),
                    None => None,
                }
            },
            Tape::Create(m) => Some((0, atoms_of(m).len())),
            Tape::Merge(m) => {
                let k = atoms_of(m).len();
                match k.checked_add(k) {
                    Some(d) => Some((d, k)),
                    None => None,
                }
            },
        }
    }

    /// The number of made-up sorts the tape's drawing needs, when it fits in
    /// `usize`.
    pub fn fresh_count(&self) -> (r: Option<usize>)
        ensures
            r matches Some(n) ==> n == tape_fresh(*self),
            r is Some <==> tape_fresh(*self) <= usize::MAX,
        decreases self,
    {
        match self {
            Tape::EmbedCircuit(c) => c.fresh_count(),
            Tape::Trace { tape, .. } => tape.fresh_count(),
            Tape::Sequence(l, r) => add_counts(l.fresh_count(), r.fresh_count()),
            Tape::Product(l, r) => add_counts(l.fresh_count(), r.fresh_count()),
            Tape::Sum(l, r) => add_counts(l.fresh_count(), r.fresh_count()),
            _ => Some(0),
        }
    }
}

} // verus!
