//! Strict open hypergraphs of the `open-hypergraphs` crate, labelled by
//! monomial nodes and tape edges, and the few constructions of that crate
//! that the rewrite rules are built from.
//!
//! A graph is held out of Verus's sight; beside it stands a model, a lax
//! graph with nothing left to identify, that the constructions below keep
//! as the crate's source shows them build the graph.

use vstd::prelude::*;

use open_hypergraphs::array::vec::{VecArray, VecKind};
use open_hypergraphs::category::{Arrow, Monoidal};
use open_hypergraphs::finite_function::FiniteFunction;
use open_hypergraphs::semifinite::SemifiniteFunction;
use open_hypergraphs::strict::open_hypergraph::OpenHypergraph;

use crate::label::Label;
use crate::strictify::{coequalizer_table, remapped, remapped_edges};
use crate::tape_language::drawing::wiring_model;
use crate::tape_language::lax_graph::{shifted, LaxGraphModel};
use crate::tape_language::monomial_tape::{edge_same, node_eq, MonomialHyperNode, MonomialTapeEdge};

verus! {

/// A strict open hypergraph of the `open-hypergraphs` crate over monomial
/// nodes and tape edges. Verus refuses a declaration of the crate's type (its
/// parameter is bound by the crate's `ArrayKind`), so the graph is held here,
/// out of Verus's sight, and only the functions below touch it.
#[verifier::external_body]
#[verifier::reject_recursive_types(S)]
#[verifier::reject_recursive_types(G)]
pub struct StrictGraph<S, G> {
    graph: OpenHypergraph<VecKind, MonomialHyperNode<S>, MonomialTapeEdge<S, G>>,
}

/// A strict graph with the labels of its boundary: the labels of its
/// source nodes and of its target nodes, in order, as the constructions
/// below give them.
#[verifier::reject_recursive_types(S)]
#[verifier::reject_recursive_types(G)]
pub struct MonomialGraph<S, G> {
    inner: StrictGraph<S, G>,
    sources: Ghost<Seq<MonomialHyperNode<S>>>,
    targets: Ghost<Seq<MonomialHyperNode<S>>>,
    model: Ghost<LaxGraphModel<MonomialHyperNode<S>, MonomialTapeEdge<S, G>>>,
}

/// The model of a strict graph: its node labels (`h.w`), edge labels
/// (`h.x`), the nodes of each edge (`h.s`, `h.t`) and its boundary (`s`,
/// `t`), with nothing left to identify.
pub type StrictModel<S, G> = LaxGraphModel<MonomialHyperNode<S>, MonomialTapeEdge<S, G>>;

/// The sequential composite of two strict graphs, as `OpenHypergraph::compose`
/// builds it: the two side by side, then the nodes coequalized by the
/// targets of `l` and the sources of `r`, the classes numbered by
/// `FiniteFunction::coequalizer`; each class is labelled as its members,
/// up to the equality of nodes; the boundary is that of `l`'s sources and
/// `r`'s targets, sent to the classes.
pub open spec fn strict_composite<S: DeepView, G>(l: StrictModel<S, G>, r: StrictModel<S, G>, c: StrictModel<S, G>) -> bool {
    let t = l.spec_tensor(r);
    let nl = l.nodes.len() as int;
    let q = coequalizer_table(l.targets, shifted(r.sources, nl), t.nodes.len() as usize);
    &&& c.nodes.len() == q.1
    &&& forall|i: int| 0 <= i < t.nodes.len() ==> node_eq(#[trigger] c.nodes[q.0[i] as int], t.nodes[i])
    &&& c.edges == t.edges
    &&& c.adjacency == remapped_edges(t.adjacency, q.0)
    &&& c.quotient == Seq::<(usize, usize)>::empty()
    &&& c.sources == remapped(l.sources, q.0)
    &&& c.targets == remapped(shifted(r.targets, nl), q.0)
}

/// `m` is the model of the identity on `labels`.
pub open spec fn is_identity_model<S, G>(m: StrictModel<S, G>, labels: Seq<MonomialHyperNode<S>>) -> bool {
    m == StrictModel::<S, G>::spec_identity(labels)
}

/// `m` is the model of the edgeless graph on `labels` with the given
/// boundary.
pub open spec fn is_spider_model<S, G>(m: StrictModel<S, G>, labels: Seq<MonomialHyperNode<S>>, s: Seq<usize>, t: Seq<usize>) -> bool {
    m == wiring_model::<MonomialHyperNode<S>, MonomialTapeEdge<S, G>>(labels, s, t)
}

impl<S: Label, G: Label> MonomialGraph<S, G> {
    /// One edge labelled `edge` from fresh nodes labelled `sources` to fresh
    /// nodes labelled `targets`, which are the graph's boundary.
    pub fn singleton(
        edge: MonomialTapeEdge<S, G>,
        sources: Vec<MonomialHyperNode<S>>,
        targets: Vec<MonomialHyperNode<S>>,
    ) -> (r: MonomialGraph<S, G>)
        ensures
            r.source_view() == sources@,
            r.target_view() == targets@,
            r.graph_view() == LaxGraphModel::spec_singleton(edge, sources@, targets@),
            r.graph_view().wf(),
    {
        singleton_graph(edge, sources, targets)
    }
}

impl<S, G> MonomialGraph<S, G> {
    /// The model of the graph.
    pub closed spec fn graph_view(&self) -> StrictModel<S, G> {
        self.model@
    }

    /// The labels of the source nodes, in order.
    pub closed spec fn source_view(&self) -> Seq<MonomialHyperNode<S>> {
        self.sources@
    }

    /// The labels of the target nodes, in order.
    pub closed spec fn target_view(&self) -> Seq<MonomialHyperNode<S>> {
        self.targets@
    }
}

/// Two lists of nodes of the same length whose nodes are equal one by one
/// (the equality of `MonomialHyperNode`).
pub open spec fn nodes_match<S: DeepView>(a: Seq<MonomialHyperNode<S>>, b: Seq<MonomialHyperNode<S>>) -> bool {
    a.len() == b.len() && forall|i: int| 0 <= i < a.len() ==> node_eq(#[trigger] a[i], b[i])
}

/// Both legs of a spider land in `n` nodes.
pub open spec fn legs_fit(s: FiniteMap, t: FiniteMap, n: nat) -> bool {
    s.target_view() == n && t.target_view() == n
}

/// The number of source (or target) nodes of each edge.
pub open spec fn port_lengths(adjacency: Seq<(Seq<usize>, Seq<usize>)>, sources: bool) -> Seq<usize> {
    adjacency.map_values(|e: (Seq<usize>, Seq<usize>)| (if sources { e.0 } else { e.1 }).len() as usize)
}

/// The source (or target) nodes of all edges, edge after edge.
pub open spec fn port_values(adjacency: Seq<(Seq<usize>, Seq<usize>)>, sources: bool) -> Seq<usize>
    decreases adjacency.len(),
{
    if adjacency.len() == 0 {
        Seq::empty()
    } else {
        port_values(adjacency.drop_last(), sources) + if sources {
            adjacency.last().0
        } else {
            adjacency.last().1
        }
    }
}

/// The labels that the points of `table` pick out of `labels`.
pub open spec fn labels_at<T>(table: Seq<usize>, labels: Seq<T>) -> Seq<T> {
    table.map_values(|i: usize| labels[i as int])
}

/// A finite function of the `open-hypergraphs` crate, held out of Verus's
/// sight for the same reason as `StrictGraph`.
#[verifier::external_body]
pub struct FiniteInner {
    map: FiniteFunction<VecKind>,
}

/// A finite function: a table of points below a codomain.
pub struct FiniteMap {
    inner: FiniteInner,
    table: Ghost<Seq<usize>>,
    target: Ghost<nat>,
}

impl FiniteMap {
    /// The table of the function.
    pub closed spec fn table_view(&self) -> Seq<usize> {
        self.table@
    }

    /// The codomain of the function.
    pub closed spec fn target_view(&self) -> nat {
        self.target@
    }
}

/// `FiniteFunction::new` on a table of `usize`: the crate refuses the table
/// exactly when one of its entries is not below `target`; the function it
/// makes has that table and codomain.
#[verifier::external_body]
pub(crate) fn finite_function(table: Vec<usize>, target: usize) -> (r: Option<FiniteMap>)
    ensures
        r is Some <==> (forall|i: int| 0 <= i < table@.len() ==> table@[i] < target),
        r matches Some(m) ==> m.table_view() == table@ && m.target_view() == target,
{
    let ghost t = table@;
    FiniteFunction::new(VecArray(table), target).map(|map| FiniteMap { inner: FiniteInner { map }, table: Ghost(t), target: Ghost(target as nat) })
}

/// `OpenHypergraph::identity`: the graph whose nodes are `labels`, each of
/// them both a source and a target, in order.
#[verifier::external_body]
pub(crate) fn identity_graph<S: Label, G: Label>(labels: Vec<MonomialHyperNode<S>>) -> (r: MonomialGraph<S, G>)
    ensures
        r.source_view() == labels@,
        r.target_view() == labels@,
        is_identity_model(r.graph_view(), labels@),
        r.graph_view().wf(),
{
    let ghost l = labels@;
    let inner = StrictGraph { graph: OpenHypergraph::identity(SemifiniteFunction(VecArray(labels))) };
    MonomialGraph { inner, sources: Ghost(l), targets: Ghost(l), model: Ghost(StrictModel::<S, G>::spec_identity(l)) }
}

/// `OpenHypergraph::singleton`: one edge with the given source and target
/// nodes, which are the graph's sources and targets.
#[verifier::external_body]
pub(crate) fn singleton_graph<S: Label, G: Label>(
    edge: MonomialTapeEdge<S, G>,
    sources: Vec<MonomialHyperNode<S>>,
    targets: Vec<MonomialHyperNode<S>>,
) -> (r: MonomialGraph<S, G>)
    ensures
        r.source_view() == sources@,
        r.target_view() == targets@,
        r.graph_view() == LaxGraphModel::spec_singleton(edge, sources@, targets@),
        r.graph_view().wf(),
{
    let ghost (s, t, e) = (sources@, targets@, edge);
    let graph = OpenHypergraph::singleton(edge, SemifiniteFunction(VecArray(sources)), SemifiniteFunction(VecArray(targets)));
    MonomialGraph { inner: StrictGraph { graph }, sources: Ghost(s), targets: Ghost(t), model: Ghost(StrictModel::<S, G>::spec_singleton(e, s, t)) }
}

/// `OpenHypergraph::spider`: the edgeless graph on `labels` with the given
/// source and target legs; the crate gives `None` exactly when a leg's
/// codomain is not the number of labels. The boundary labels are the labels
/// the legs point to.
#[verifier::external_body]
pub(crate) fn spider_graph<S: Label, G: Label>(
    s: FiniteMap,
    t: FiniteMap,
    labels: Vec<MonomialHyperNode<S>>,
) -> (r: Option<MonomialGraph<S, G>>)
    ensures
        r is Some <==> legs_fit(s, t, labels@.len()),
        r matches Some(g) ==> g.source_view() == labels_at(s.table_view(), labels@),
        r matches Some(g) ==> g.target_view() == labels_at(t.table_view(), labels@),
        r matches Some(g) ==> is_spider_model(g.graph_view(), labels@, s.table_view(), t.table_view()),
        r matches Some(g) ==> g.graph_view().wf(),
{
    let ghost (sv, tv) = (labels_at(s.table@, labels@), labels_at(t.table@, labels@));
    let ghost m = wiring_model::<MonomialHyperNode<S>, MonomialTapeEdge<S, G>>(labels@, s.table@, t.table@);
    OpenHypergraph::spider(s.inner.map, t.inner.map, SemifiniteFunction(VecArray(labels)))
        .map(|graph| MonomialGraph { inner: StrictGraph { graph }, sources: Ghost(sv), targets: Ghost(tv), model: Ghost(m) })
}

/// `Monoidal::tensor`: the two graphs side by side; the boundaries are
/// those of `left` followed by those of `right`.
#[verifier::external_body]
pub(crate) fn tensor_graphs<S: Label, G: Label>(left: &MonomialGraph<S, G>, right: &MonomialGraph<S, G>) -> (r:
    MonomialGraph<S, G>)
    ensures
        r.source_view() == left.source_view() + right.source_view(),
        r.target_view() == left.target_view() + right.target_view(),
        r.graph_view() == left.graph_view().spec_tensor(right.graph_view()),
        left.graph_view().wf() && right.graph_view().wf() ==> r.graph_view().wf(),
{
    let ghost (s, t) = (left.sources@ + right.sources@, left.targets@ + right.targets@);
    let ghost m = left.model@.spec_tensor(right.model@);
    MonomialGraph { inner: StrictGraph { graph: left.inner.graph.tensor(&right.inner.graph) }, sources: Ghost(s), targets: Ghost(t), model: Ghost(m) }
}

/// `Arrow::compose`: the crate gives `None` exactly when the target labels
/// of `left` differ from the source labels of `right` (compared with the
/// equality of `MonomialHyperNode`); the composite has the sources of
/// `left` and the targets of `right`.
#[verifier::external_body]
pub(crate) fn compose_graphs<S: Label, G: Label>(left: &MonomialGraph<S, G>, right: &MonomialGraph<S, G>) -> (r:
    Option<MonomialGraph<S, G>>)
    ensures
        r is Some <==> nodes_match(left.target_view(), right.source_view()),
        r matches Some(g) ==> nodes_match(g.source_view(), left.source_view()) && nodes_match(
            g.target_view(),
            right.target_view(),
        ),
        r matches Some(g) ==> strict_composite(left.graph_view(), right.graph_view(), g.graph_view()),
        r matches Some(g) ==> (left.graph_view().wf() && right.graph_view().wf() ==> g.graph_view().wf()),
{
    let ghost (s, t) = (left.sources@, right.targets@);
    let ghost m = choose|m: StrictModel<S, G>| strict_composite(left.model@, right.model@, m);
    Arrow::compose(&left.inner.graph, &right.inner.graph).map(|graph| MonomialGraph { inner: StrictGraph { graph }, sources: Ghost(s), targets: Ghost(t), model: Ghost(m) })
}

/// `OpenHypergraph::source`: the labels of the source nodes, in order, each
/// copied with `Clone`, so equal one by one to the graph's source labels.
/// The crate panics only on a graph whose source leg leaves its nodes,
/// which none of the crate's constructions above yields.
#[verifier::external_body]
pub(crate) fn source_labels<S: Label, G: Label>(graph: &MonomialGraph<S, G>) -> (r: Vec<MonomialHyperNode<S>>)
    ensures
        nodes_match(r@, graph.source_view()),
{
    graph.inner.graph.source().0.0
}

/// `OpenHypergraph::target`: the labels of the target nodes, in order, each
/// copied with `Clone`, so equal one by one to the graph's target labels.
/// The crate panics only on a graph whose target leg leaves its nodes,
/// which none of the crate's constructions above yields.
#[verifier::external_body]
pub(crate) fn target_labels<S: Label, G: Label>(graph: &MonomialGraph<S, G>) -> (r: Vec<MonomialHyperNode<S>>)
    ensures
        nodes_match(r@, graph.target_view()),
{
    graph.inner.graph.target().0.0
}

/// The node labels of a graph, in the crate's order (`h.w`), each copied
/// with `Clone`.
#[verifier::external_body]
pub(crate) fn node_labels<S: Label, G: Label>(graph: &MonomialGraph<S, G>) -> (r: Vec<MonomialHyperNode<S>>)
    ensures
        nodes_match(r@, graph.graph_view().nodes),
{
    graph.inner.graph.h.w.0.0.clone()
}

/// The edge labels of a graph, in the crate's order (`h.x`), each copied
/// with `Clone`.
#[verifier::external_body]
pub(crate) fn edge_labels<S: Label, G: Label>(graph: &MonomialGraph<S, G>) -> (r: Vec<MonomialTapeEdge<S, G>>)
    ensures
        r@.len() == graph.graph_view().edges.len(),
        forall|e: int| 0 <= e < r@.len() ==> edge_same(#[trigger] r@[e], graph.graph_view().edges[e]),
{
    graph.inner.graph.h.x.0.0.clone()
}

/// The number of source ports of each edge (`h.s.sources`), copied.
#[verifier::external_body]
pub(crate) fn edge_source_lengths<S: Label, G: Label>(graph: &MonomialGraph<S, G>) -> (r: Vec<usize>)
    ensures
        r@ == port_lengths(graph.graph_view().adjacency, true),
{
    graph.inner.graph.h.s.sources.table.0.clone()
}

/// The source nodes of all edges, edge after edge (`h.s.values`), copied.
#[verifier::external_body]
pub(crate) fn edge_source_values<S: Label, G: Label>(graph: &MonomialGraph<S, G>) -> (r: Vec<usize>)
    ensures
        r@ == port_values(graph.graph_view().adjacency, true),
{
    graph.inner.graph.h.s.values.table.0.clone()
}

/// The number of target ports of each edge (`h.t.sources`), copied.
#[verifier::external_body]
pub(crate) fn edge_target_lengths<S: Label, G: Label>(graph: &MonomialGraph<S, G>) -> (r: Vec<usize>)
    ensures
        r@ == port_lengths(graph.graph_view().adjacency, false),
{
    graph.inner.graph.h.t.sources.table.0.clone()
}

/// The target nodes of all edges, edge after edge (`h.t.values`), copied.
#[verifier::external_body]
pub(crate) fn edge_target_values<S: Label, G: Label>(graph: &MonomialGraph<S, G>) -> (r: Vec<usize>)
    ensures
        r@ == port_values(graph.graph_view().adjacency, false),
{
    graph.inner.graph.h.t.values.table.0.clone()
}

/// The nodes of the boundary sources, in order (`s`), copied.
#[verifier::external_body]
pub(crate) fn boundary_sources<S: Label, G: Label>(graph: &MonomialGraph<S, G>) -> (r: Vec<usize>)
    ensures
        r@ == graph.graph_view().sources,
{
    graph.inner.graph.s.table.0.clone()
}

/// The nodes of the boundary targets, in order (`t`), copied.
#[verifier::external_body]
pub(crate) fn boundary_targets<S: Label, G: Label>(graph: &MonomialGraph<S, G>) -> (r: Vec<usize>)
    ensures
        r@ == graph.graph_view().targets,
{
    graph.inner.graph.t.table.0.clone()
}

} // verus!
