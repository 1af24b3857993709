//! An open hypergraph decoded into plain vectors for backtracking search:
//! labels, the ports of each edge, and for each node where it stands on the
//! boundary and which edge ports touch it.

use vstd::prelude::*;

use vstd::std_specs::cmp::PartialEqSpec;

use crate::label::Label;
use crate::rewriting::strict_graph::{
    boundary_sources, boundary_targets, edge_labels, edge_source_lengths, edge_source_values, edge_target_lengths,
    edge_target_values, node_labels, nodes_match, port_lengths, port_values, MonomialGraph,
};
use crate::tape_language::lax_graph::below;
use crate::tape_language::monomial_tape::{edge_same, MonomialHyperNode, MonomialTapeEdge};

verus! {

/// Whether a node touches an edge as one of its sources or one of its targets.
#[derive(Clone, Copy, PartialEq, Eq, Debug)]
pub enum Direction {
    Source,
    Target,
}

/// One port of one edge that a node stands at.
#[derive(Clone, Copy, Debug)]
pub struct IncidentEdge {
    pub edge: usize,
    pub direction: Direction,
    pub port: usize,
}

/// The source and target nodes of an edge, port by port.
#[derive(Debug)]
pub struct EdgeInfo {
    pub sources: Vec<usize>,
    pub targets: Vec<usize>,
}

/// What the search needs to know of a node.
#[derive(Debug)]
pub struct NodeInfo {
    /// Positions of the boundary sources at which the node stands, increasing.
    pub source_positions: Vec<usize>,
    /// Positions of the boundary targets at which the node stands, increasing.
    pub target_positions: Vec<usize>,
    /// Number of edge source ports at the node.
    pub source_incidence_count: usize,
    /// Number of edge target ports at the node.
    pub target_incidence_count: usize,
    /// The edge ports at the node, edge by edge, sources before targets.
    pub incident_edges: Vec<IncidentEdge>,
}

/// An open hypergraph in the form the search reads.
pub struct PreparedOpenHypergraph<O, A> {
    pub node_labels: Vec<O>,
    pub edge_labels: Vec<A>,
    pub source_len: usize,
    pub target_len: usize,
    pub nodes: Vec<NodeInfo>,
    pub edges: Vec<EdgeInfo>,
}

/// The positions in `s` that hold `n`, increasing.
pub open spec fn positions_of(s: Seq<usize>, n: usize) -> Seq<usize>
    decreases s.len(),
{
    if s.len() == 0 {
        Seq::empty()
    } else {
        positions_of(s.drop_last(), n) + if s.last() == n {
            seq![(s.len() - 1) as usize]
        } else {
            Seq::empty()
        }
    }
}

/// The ports of one edge's side that hold `n`, as incidence records.
pub open spec fn port_records(ports: Seq<usize>, n: usize, edge: usize, direction: Direction) -> Seq<
    IncidentEdge,
>
    decreases ports.len(),
{
    if ports.len() == 0 {
        Seq::empty()
    } else {
        port_records(ports.drop_last(), n, edge, direction) + if ports.last() == n {
            seq![IncidentEdge { edge, direction, port: (ports.len() - 1) as usize }]
        } else {
            Seq::empty()
        }
    }
}

/// The incidence records of `n` over the first `upto` edges: edge by edge,
/// source ports before target ports.
pub open spec fn edge_records(edges: Seq<EdgeInfo>, n: usize, upto: int) -> Seq<IncidentEdge>
    decreases upto,
{
    if upto <= 0 {
        Seq::empty()
    } else {
        edge_records(edges, n, upto - 1) + port_records(
            edges[upto - 1].sources@,
            n,
            (upto - 1) as usize,
            Direction::Source,
        ) + port_records(edges[upto - 1].targets@, n, (upto - 1) as usize, Direction::Target)
    }
}

/// Number of source ports (or target ports) at `n` over the first `upto` edges.
pub open spec fn port_count(edges: Seq<EdgeInfo>, n: usize, upto: int, direction: Direction) -> nat
    decreases upto,
{
    if upto <= 0 {
        0
    } else {
        port_count(edges, n, upto - 1, direction) + port_records(
            if direction == Direction::Source {
                edges[upto - 1].sources@
            } else {
                edges[upto - 1].targets@
            },
            n,
            (upto - 1) as usize,
            direction,
        ).len()
    }
}

/// Every entry is below `bound` (and the entries fit in memory).
pub open spec fn all_below(s: Seq<usize>, bound: nat) -> bool {
    &&& s.len() <= usize::MAX
    &&& forall|i: int| 0 <= i < s.len() ==> #[trigger] s[i] < bound
}

/// Every port of the edge names a node.
pub open spec fn edge_ports_ok(edge: EdgeInfo, bound: nat) -> bool {
    all_below(edge.sources@, bound) && all_below(edge.targets@, bound)
}

/// Every port of every edge names a node.
pub open spec fn ports_below(edges: Seq<EdgeInfo>, bound: nat) -> bool {
    forall|e: int| 0 <= e < edges.len() ==> #[trigger] edge_ports_ok(edges[e], bound)
}

/// What the node information of node `n` is, given the edges and the
/// boundary of the graph.
pub open spec fn node_info_of(
    info: NodeInfo,
    edges: Seq<EdgeInfo>,
    sources: Seq<usize>,
    targets: Seq<usize>,
    n: usize,
) -> bool {
    &&& info.source_positions@ == positions_of(sources, n)
    &&& info.target_positions@ == positions_of(targets, n)
    &&& info.source_incidence_count == port_count(edges, n, edges.len() as int, Direction::Source)
    &&& info.target_incidence_count == port_count(edges, n, edges.len() as int, Direction::Target)
    &&& info.incident_edges@ == edge_records(edges, n, edges.len() as int)
}

/// A record that says node `n` stands at a port of an edge says so truly.
pub open spec fn record_holds(edges: Seq<EdgeInfo>, r: IncidentEdge, n: usize) -> bool {
    &&& r.edge < edges.len()
    &&& match r.direction {
        Direction::Source => r.port < edges[r.edge as int].sources@.len() && edges[r.edge as int].sources@[r.port as int] == n,
        Direction::Target => r.port < edges[r.edge as int].targets@.len() && edges[r.edge as int].targets@[r.port as int] == n,
    }
}

impl<O, A> PreparedOpenHypergraph<O, A> {
    /// The shape the search relies on: one label per node and per edge,
    /// ports that name nodes, and incidence records that are true.
    pub open spec fn wf(&self) -> bool {
        &&& self.nodes@.len() < usize::MAX
        &&& self.edges@.len() < usize::MAX
        &&& self.node_labels@.len() == self.nodes@.len()
        &&& self.edge_labels@.len() == self.edges@.len()
        &&& ports_below(self.edges@, self.nodes@.len())
        &&& forall|n: int, i: int|
            0 <= n < self.nodes@.len() && 0 <= i < self.nodes@[n].incident_edges@.len() ==> record_holds(
                self.edges@,
                #[trigger] self.nodes@[n].incident_edges@[i],
                n as usize,
            )
    }

    pub fn node_count(&self) -> (r: usize)
        ensures
            r == self.nodes@.len(),
    {
        self.nodes.len()
    }

    pub fn edge_count(&self) -> (r: usize)
        ensures
            r == self.edges@.len(),
    {
        self.edges.len()
    }

    pub fn source_len(&self) -> (r: usize)
        ensures
            r == self.source_len,
    {
        self.source_len
    }

    pub fn target_len(&self) -> (r: usize)
        ensures
            r == self.target_len,
    {
        self.target_len
    }

    pub fn node_label(&self, idx: usize) -> (r: &O)
        requires
            idx < self.node_labels@.len(),
        ensures
            *r == self.node_labels@[idx as int],
    {
        &self.node_labels[idx]
    }

    pub fn edge_label(&self, idx: usize) -> (r: &A)
        requires
            idx < self.edge_labels@.len(),
        ensures
            *r == self.edge_labels@[idx as int],
    {
        &self.edge_labels[idx]
    }

    pub fn node(&self, idx: usize) -> (r: &NodeInfo)
        requires
            idx < self.nodes@.len(),
        ensures
            *r == self.nodes@[idx as int],
    {
        &self.nodes[idx]
    }

    pub fn edge(&self, idx: usize) -> (r: &EdgeInfo)
        requires
            idx < self.edges@.len(),
        ensures
            *r == self.edges@[idx as int],
    {
        &self.edges[idx]
    }
}

impl<O: PartialEq, A: PartialEq> PreparedOpenHypergraph<O, A> {
    /// Well formed, with labels whose `==` is the one their specification
    /// states.
    pub open spec fn searchable(&self) -> bool {
        &&& self.wf()
        &&& O::obeys_eq_spec()
        &&& A::obeys_eq_spec()
    }
}

/// Decides whether every entry of `v` is below `bound`.
fn entries_below(v: &Vec<usize>, bound: usize) -> (r: bool)
    ensures
        r == all_below(v@, bound as nat),
{
    let len = v.len();
    let mut i: usize = 0;
    while i < v.len()
        invariant
            i <= v@.len(),
            v@.len() <= usize::MAX,
            forall|k: int| 0 <= k < i ==> v@[k] < bound,
        decreases v@.len() - i,
    {
        if v[i] >= bound {
            return false;
        }
        i = i + 1;
    }
    true
}

/// Every record of a node's ports on one side of an edge says so truly.
proof fn lemma_port_records_hold(ports: Seq<usize>, n: usize, edge: usize, direction: Direction)
    requires
        ports.len() <= usize::MAX,
    ensures
        forall|i: int|
            0 <= i < port_records(ports, n, edge, direction).len() ==> {
                let r = #[trigger] port_records(ports, n, edge, direction)[i];
                &&& r.edge == edge
                &&& r.direction == direction
                &&& r.port < ports.len()
                &&& ports[r.port as int] == n
            },
    decreases ports.len(),
{
    if ports.len() > 0 {
        let init = ports.drop_last();
        lemma_port_records_hold(init, n, edge, direction);
        let a = port_records(init, n, edge, direction);
        let tail = if ports.last() == n {
            seq![IncidentEdge { edge, direction, port: (ports.len() - 1) as usize }]
        } else {
            Seq::empty()
        };
        assert(port_records(ports, n, edge, direction) == a + tail);
        assert forall|i: int| 0 <= i < (a + tail).len() implies {
            let r = #[trigger] (a + tail)[i];
            &&& r.edge == edge
            &&& r.direction == direction
            &&& r.port < ports.len()
            &&& ports[r.port as int] == n
        } by {
            if i < a.len() {
                assert((a + tail)[i] == a[i]);
                assert(init[a[i].port as int] == ports[a[i].port as int]);
            } else {
                assert((a + tail)[i] == tail[i - a.len()]);
            }
        }
    }
}

/// Every incidence record over the first `upto` edges is true.
proof fn lemma_edge_records_hold(edges: Seq<EdgeInfo>, n: usize, upto: int, bound: nat)
    requires
        0 <= upto <= edges.len(),
        edges.len() <= usize::MAX,
        ports_below(edges, bound),
    ensures
        forall|i: int| 0 <= i < edge_records(edges, n, upto).len() ==> record_holds(edges, #[trigger] edge_records(edges, n, upto)[i], n),
    decreases upto,
{
    if upto > 0 {
        lemma_edge_records_hold(edges, n, upto - 1, bound);
        let e = (upto - 1) as usize;
        let a = edge_records(edges, n, upto - 1);
        let b = port_records(edges[upto - 1].sources@, n, e, Direction::Source);
        let c = port_records(edges[upto - 1].targets@, n, e, Direction::Target);
        assert(edge_ports_ok(edges[upto - 1], bound));
        lemma_port_records_hold(edges[upto - 1].sources@, n, e, Direction::Source);
        lemma_port_records_hold(edges[upto - 1].targets@, n, e, Direction::Target);
        assert forall|i: int| 0 <= i < (a + b + c).len() implies record_holds(edges, #[trigger] (a + b + c)[i], n) by {
            if i < a.len() {
                assert((a + b + c)[i] == a[i]);
            } else if i < a.len() + b.len() {
                assert((a + b + c)[i] == b[i - a.len()]);
            } else {
                assert((a + b + c)[i] == c[i - a.len() - b.len()]);
            }
        }
    }
}

/// Builds the node information of every node from the edges and the
/// boundary: where each node stands on the boundary, and the edge ports at
/// it, in the order of the edges, source ports before target ports.
fn build_node_infos(node_count: usize, edges: &Vec<EdgeInfo>, sources: &Vec<usize>, targets: &Vec<usize>) -> (r: Vec<
    NodeInfo,
>)
    requires
        all_below(sources@, node_count as nat),
        all_below(targets@, node_count as nat),
        ports_below(edges@, node_count as nat),
    ensures
        r@.len() == node_count,
        forall|n: int| 0 <= n < node_count ==> node_info_of(#[trigger] r@[n], edges@, sources@, targets@, n as usize),
{
    let mut nodes: Vec<NodeInfo> = Vec::new();
    let mut i: usize = 0;
    while i < node_count
        invariant
            i <= node_count,
            nodes@.len() == i,
            forall|n: int|
                0 <= n < i ==> {
                    let info = #[trigger] nodes@[n];
                    &&& info.source_positions@ == Seq::<usize>::empty()
                    &&& info.target_positions@ == Seq::<usize>::empty()
                    &&& info.source_incidence_count == 0
                    &&& info.target_incidence_count == 0
                    &&& info.incident_edges@ == Seq::<IncidentEdge>::empty()
                },
        decreases node_count - i,
    {
        nodes.push(
            NodeInfo {
                source_positions: Vec::new(),
                target_positions: Vec::new(),
                source_incidence_count: 0,
                target_incidence_count: 0,
                incident_edges: Vec::new(),
            },
        );
        i = i + 1;
    }
    let mut position: usize = 0;
    while position < sources.len()
        invariant
            nodes@.len() == node_count,
            position <= sources@.len(),
            all_below(sources@, node_count as nat),
            forall|n: int|
                0 <= n < node_count ==> {
                    let info = #[trigger] nodes@[n];
                    &&& info.source_positions@ == positions_of(sources@.subrange(0, position as int), n as usize)
                    &&& info.target_positions@ == Seq::<usize>::empty()
                    &&& info.source_incidence_count == 0
                    &&& info.target_incidence_count == 0
                    &&& info.incident_edges@ == Seq::<IncidentEdge>::empty()
                },
        decreases sources@.len() - position,
    {
        let node = sources[position];
        nodes[node].source_positions.push(position);
        proof {
            assert(sources@.subrange(0, position + 1).drop_last() =~= sources@.subrange(0, position as int));
        }
        position = position + 1;
    }
    proof {
        assert(sources@.subrange(0, sources@.len() as int) =~= sources@);
    }
    let mut position: usize = 0;
    while position < targets.len()
        invariant
            nodes@.len() == node_count,
            position <= targets@.len(),
            all_below(targets@, node_count as nat),
            forall|n: int|
                0 <= n < node_count ==> {
                    let info = #[trigger] nodes@[n];
                    &&& info.source_positions@ == positions_of(sources@, n as usize)
                    &&& info.target_positions@ == positions_of(targets@.subrange(0, position as int), n as usize)
                    &&& info.source_incidence_count == 0
                    &&& info.target_incidence_count == 0
                    &&& info.incident_edges@ == Seq::<IncidentEdge>::empty()
                },
        decreases targets@.len() - position,
    {
        let node = targets[position];
        nodes[node].target_positions.push(position);
        proof {
            assert(targets@.subrange(0, position + 1).drop_last() =~= targets@.subrange(0, position as int));
        }
        position = position + 1;
    }
    proof {
        assert(targets@.subrange(0, targets@.len() as int) =~= targets@);
    }
    let mut e: usize = 0;
    while e < edges.len()
        invariant
            nodes@.len() == node_count,
            e <= edges@.len(),
            ports_below(edges@, node_count as nat),
            forall|n: int|
                0 <= n < node_count ==> {
                    let info = #[trigger] nodes@[n];
                    &&& info.source_positions@ == positions_of(sources@, n as usize)
                    &&& info.target_positions@ == positions_of(targets@, n as usize)
                    &&& info.source_incidence_count == port_count(edges@, n as usize, e as int, Direction::Source)
                    &&& info.target_incidence_count == port_count(edges@, n as usize, e as int, Direction::Target)
                    &&& info.incident_edges@ == edge_records(edges@, n as usize, e as int)
                    &&& info.incident_edges@.len() == info.source_incidence_count + info.target_incidence_count
                },
        decreases edges@.len() - e,
    {
        let srcs = &edges[e].sources;
        assert(edge_ports_ok(edges@[e as int], node_count as nat));
        let mut k: usize = 0;
        while k < srcs.len()
            invariant
                nodes@.len() == node_count,
                e < edges@.len(),
                *srcs == edges@[e as int].sources,
                k <= srcs@.len(),
                all_below(srcs@, node_count as nat),
                forall|n: int|
                    0 <= n < node_count ==> {
                        let info = #[trigger] nodes@[n];
                        let part = port_records(srcs@.subrange(0, k as int), n as usize, e, Direction::Source);
                        &&& info.source_positions@ == positions_of(sources@, n as usize)
                        &&& info.target_positions@ == positions_of(targets@, n as usize)
                        &&& info.source_incidence_count == port_count(edges@, n as usize, e as int, Direction::Source)
                            + part.len()
                        &&& info.target_incidence_count == port_count(edges@, n as usize, e as int, Direction::Target)
                        &&& info.incident_edges@ == edge_records(edges@, n as usize, e as int) + part
                        &&& info.incident_edges@.len() == info.source_incidence_count + info.target_incidence_count
                    },
            decreases srcs@.len() - k,
        {
            let node = srcs[k];
            let ghost before = nodes@;
            nodes[node].incident_edges.push(IncidentEdge { edge: e, direction: Direction::Source, port: k });
            let l = nodes[node].incident_edges.len();
            nodes[node].source_incidence_count = nodes[node].source_incidence_count + 1;
            proof {
                let sub = srcs@.subrange(0, k + 1);
                assert(sub.drop_last() =~= srcs@.subrange(0, k as int));
                assert forall|n: int| 0 <= n < node_count implies {
                    let info = #[trigger] nodes@[n];
                    let part = port_records(srcs@.subrange(0, k + 1), n as usize, e, Direction::Source);
                    &&& info.source_positions@ == positions_of(sources@, n as usize)
                    &&& info.target_positions@ == positions_of(targets@, n as usize)
                    &&& info.source_incidence_count == port_count(edges@, n as usize, e as int, Direction::Source)
                        + part.len()
                    &&& info.target_incidence_count == port_count(edges@, n as usize, e as int, Direction::Target)
                    &&& info.incident_edges@ == edge_records(edges@, n as usize, e as int) + part
                    &&& info.incident_edges@.len() == info.source_incidence_count + info.target_incidence_count
                } by {
                    let old_part = port_records(srcs@.subrange(0, k as int), n as usize, e, Direction::Source);
                    if n == node {
                        assert(edge_records(edges@, n as usize, e as int) + old_part.push(
                            IncidentEdge { edge: e, direction: Direction::Source, port: k },
                        ) =~= (edge_records(edges@, n as usize, e as int) + old_part).push(
                            IncidentEdge { edge: e, direction: Direction::Source, port: k },
                        ));
                    } else {
                        assert(nodes@[n] == before[n]);
                        assert(port_records(srcs@.subrange(0, k + 1), n as usize, e, Direction::Source) =~= old_part);
                    }
                }
            }
            k = k + 1;
        }
        let tgts = &edges[e].targets;
        assert(edge_ports_ok(edges@[e as int], node_count as nat));
        proof {
            assert(srcs@.subrange(0, srcs@.len() as int) =~= srcs@);
        }
        let mut k: usize = 0;
        while k < tgts.len()
            invariant
                nodes@.len() == node_count,
                e < edges@.len(),
                *tgts == edges@[e as int].targets,
                k <= tgts@.len(),
                all_below(tgts@, node_count as nat),
                forall|n: int|
                    0 <= n < node_count ==> {
                        let info = #[trigger] nodes@[n];
                        let first = port_records(edges@[e as int].sources@, n as usize, e, Direction::Source);
                        let part = port_records(tgts@.subrange(0, k as int), n as usize, e, Direction::Target);
                        &&& info.source_positions@ == positions_of(sources@, n as usize)
                        &&& info.target_positions@ == positions_of(targets@, n as usize)
                        &&& info.source_incidence_count == port_count(edges@, n as usize, e as int, Direction::Source)
                            + first.len()
                        &&& info.target_incidence_count == port_count(edges@, n as usize, e as int, Direction::Target)
                            + part.len()
                        &&& info.incident_edges@ == edge_records(edges@, n as usize, e as int) + first + part
                        &&& info.incident_edges@.len() == info.source_incidence_count + info.target_incidence_count
                    },
            decreases tgts@.len() - k,
        {
            let node = tgts[k];
            let ghost before = nodes@;
            nodes[node].incident_edges.push(IncidentEdge { edge: e, direction: Direction::Target, port: k });
            let l = nodes[node].incident_edges.len();
            nodes[node].target_incidence_count = nodes[node].target_incidence_count + 1;
            proof {
                let sub = tgts@.subrange(0, k + 1);
                assert(sub.drop_last() =~= tgts@.subrange(0, k as int));
                assert forall|n: int| 0 <= n < node_count implies {
                    let info = #[trigger] nodes@[n];
                    let first = port_records(edges@[e as int].sources@, n as usize, e, Direction::Source);
                    let part = port_records(tgts@.subrange(0, k + 1), n as usize, e, Direction::Target);
                    &&& info.source_positions@ == positions_of(sources@, n as usize)
                    &&& info.target_positions@ == positions_of(targets@, n as usize)
                    &&& info.source_incidence_count == port_count(edges@, n as usize, e as int, Direction::Source)
                        + first.len()
                    &&& info.target_incidence_count == port_count(edges@, n as usize, e as int, Direction::Target)
                        + part.len()
                    &&& info.incident_edges@ == edge_records(edges@, n as usize, e as int) + first + part
                    &&& info.incident_edges@.len() == info.source_incidence_count + info.target_incidence_count
                } by {
                    let first = port_records(edges@[e as int].sources@, n as usize, e, Direction::Source);
                    let old_part = port_records(tgts@.subrange(0, k as int), n as usize, e, Direction::Target);
                    if n == node {
                        assert(edge_records(edges@, n as usize, e as int) + first + old_part.push(
                            IncidentEdge { edge: e, direction: Direction::Target, port: k },
                        ) =~= (edge_records(edges@, n as usize, e as int) + first + old_part).push(
                            IncidentEdge { edge: e, direction: Direction::Target, port: k },
                        ));
                    } else {
                        assert(nodes@[n] == before[n]);
                        assert(port_records(tgts@.subrange(0, k + 1), n as usize, e, Direction::Target) =~= old_part);
                    }
                }
            }
            k = k + 1;
        }
        proof {
            assert(tgts@.subrange(0, tgts@.len() as int) =~= tgts@);
        }
        e = e + 1;
    }
    nodes
}

/// Decides whether every port of every edge is below `bound`.
fn edge_ports_below(edges: &Vec<EdgeInfo>, bound: usize) -> (r: bool)
    ensures
        r == ports_below(edges@, bound as nat),
{
    let mut e: usize = 0;
    while e < edges.len()
        invariant
            e <= edges@.len(),
            forall|k: int| 0 <= k < e ==> #[trigger] edge_ports_ok(edges@[k], bound as nat),
        decreases edges@.len() - e,
    {
        let sources_ok = entries_below(&edges[e].sources, bound);
        let targets_ok = entries_below(&edges[e].targets, bound);
        if !sources_ok || !targets_ok {
            assert(!edge_ports_ok(edges@[e as int], bound as nat));
            return false;
        }
        assert(edge_ports_ok(edges@[e as int], bound as nat));
        e = e + 1;
    }
    true
}

impl<O, A> PreparedOpenHypergraph<O, A> {
    /// The graph with the given node labels, edge labels, edges and boundary,
    /// with the information of each node worked out. `None` when the edges
    /// and edge labels differ in number, when a port or a boundary entry
    /// names no node, or when there are `usize::MAX` nodes or edges (the
    /// search counts candidates below that bound).
    pub fn from_parts(
        node_labels: Vec<O>,
        edge_labels: Vec<A>,
        edges: Vec<EdgeInfo>,
        sources: &Vec<usize>,
        targets: &Vec<usize>,
    ) -> (r: Option<Self>)
        ensures
            r is Some <==> {
                &&& node_labels@.len() < usize::MAX
                &&& edges@.len() < usize::MAX
                &&& edge_labels@.len() == edges@.len()
                &&& all_below(sources@, node_labels@.len())
                &&& all_below(targets@, node_labels@.len())
                &&& ports_below(edges@, node_labels@.len())
            },
            r matches Some(g) ==> {
                &&& g.wf()
                &&& g.node_labels == node_labels
                &&& g.edge_labels == edge_labels
                &&& g.edges@ == edges@
                &&& g.source_len == sources@.len()
                &&& g.target_len == targets@.len()
                &&& g.nodes@.len() == node_labels@.len()
                &&& forall|n: int|
                    0 <= n < g.nodes@.len() ==> node_info_of(
                        #[trigger] g.nodes@[n],
                        edges@,
                        sources@,
                        targets@,
                        n as usize,
                    )
            },
    {
        let node_count = node_labels.len();
        if node_count == usize::MAX || edges.len() == usize::MAX || edge_labels.len() != edges.len() || !entries_below(sources, node_count) || !entries_below(
            targets,
            node_count,
        ) || !edge_ports_below(&edges, node_count) {
            return None;
        }
        let nodes = build_node_infos(node_count, &edges, sources, targets);
        let source_len = sources.len();
        let target_len = targets.len();
        let g = PreparedOpenHypergraph { node_labels, edge_labels, source_len, target_len, nodes, edges };
        proof {
            assert forall|n: int, i: int|
                0 <= n < g.nodes@.len() && 0 <= i < g.nodes@[n].incident_edges@.len() implies record_holds(
                g.edges@,
                #[trigger] g.nodes@[n].incident_edges@[i],
                n as usize,
            ) by {
                lemma_edge_records_hold(g.edges@, n as usize, g.edges@.len() as int, node_count as nat);
            }
        }
        Some(g)
    }
}

/// Sum of the first `upto` lengths.
pub open spec fn prefix_sum(lengths: Seq<usize>, upto: int) -> int
    decreases upto,
{
    if upto <= 0 {
        0
    } else {
        prefix_sum(lengths, upto - 1) + lengths[upto - 1]
    }
}

/// The first `count` segments, of the given lengths, fit in `values_len`
/// values.
pub open spec fn segments_fit(lengths: Seq<usize>, values_len: nat, count: nat) -> bool {
    count <= lengths.len() && prefix_sum(lengths, count as int) <= values_len
}

/// Segment `e` of `values` cut by `lengths`.
pub open spec fn segment(lengths: Seq<usize>, values: Seq<usize>, e: int) -> Seq<usize> {
    values.subrange(prefix_sum(lengths, e), prefix_sum(lengths, e + 1))
}

/// Prefix sums of lengths do not decrease.
proof fn lemma_prefix_sum_grows(lengths: Seq<usize>, a: int, b: int)
    requires
        0 <= a <= b,
    ensures
        prefix_sum(lengths, a) <= prefix_sum(lengths, b),
    decreases b - a,
{
    if a < b {
        lemma_prefix_sum_grows(lengths, a, b - 1);
    }
}

/// A copy of `len` values from `start` on.
fn copy_range(values: &Vec<usize>, start: usize, len: usize) -> (r: Vec<usize>)
    requires
        start + len <= values@.len(),
    ensures
        r@ == values@.subrange(start as int, start + len),
{
    let total = values.len();
    let mut out: Vec<usize> = Vec::new();
    let mut k: usize = 0;
    while k < len
        invariant
            start + len <= values@.len(),
            values@.len() <= usize::MAX,
            k <= len,
            out@ == values@.subrange(start as int, start + k),
        decreases len - k,
    {
        out.push(values[start + k]);
        k = k + 1;
        assert(out@ =~= values@.subrange(start as int, start + k));
    }
    out
}

/// The edges of a graph whose ports are stored as segmented arrays: edge `e`
/// has as its sources the `source_lengths[e]` values of `source_values` that
/// follow those of the edges before it, and likewise its targets. `None`
/// when there are fewer lengths than edges or the lengths run past the
/// values.
pub fn extract_edges(
    edge_count: usize,
    source_lengths: &Vec<usize>,
    source_values: &Vec<usize>,
    target_lengths: &Vec<usize>,
    target_values: &Vec<usize>,
) -> (r: Option<Vec<EdgeInfo>>)
    ensures
        r is Some <==> segments_fit(source_lengths@, source_values@.len(), edge_count as nat) && segments_fit(
            target_lengths@,
            target_values@.len(),
            edge_count as nat,
        ),
        r matches Some(edges) ==> {
            &&& edges@.len() == edge_count
            &&& forall|e: int|
                0 <= e < edge_count ==> (#[trigger] edges@[e]).sources@ == segment(source_lengths@, source_values@, e)
                    && edges@[e].targets@ == segment(target_lengths@, target_values@, e)
        },
{
    let mut edges: Vec<EdgeInfo> = Vec::new();
    let mut source_offset: usize = 0;
    let mut target_offset: usize = 0;
    let mut edge_idx: usize = 0;
    while edge_idx < edge_count
        invariant
            edge_idx <= edge_count,
            edge_idx <= source_lengths@.len(),
            edge_idx <= target_lengths@.len(),
            source_offset == prefix_sum(source_lengths@, edge_idx as int),
            target_offset == prefix_sum(target_lengths@, edge_idx as int),
            source_offset <= source_values@.len(),
            target_offset <= target_values@.len(),
            edges@.len() == edge_idx,
            forall|e: int|
                0 <= e < edge_idx ==> (#[trigger] edges@[e]).sources@ == segment(source_lengths@, source_values@, e)
                    && edges@[e].targets@ == segment(target_lengths@, target_values@, e),
        decreases edge_count - edge_idx,
    {
        if edge_idx >= source_lengths.len() || edge_idx >= target_lengths.len() {
            return None;
        }
        let source_len = source_lengths[edge_idx];
        let target_len = target_lengths[edge_idx];
        if source_len > source_values.len() - source_offset || target_len > target_values.len() - target_offset {
            proof {
                lemma_prefix_sum_grows(source_lengths@, edge_idx + 1, edge_count as int);
                lemma_prefix_sum_grows(target_lengths@, edge_idx + 1, edge_count as int);
            }
            return None;
        }
        let sources = copy_range(source_values, source_offset, source_len);
        let targets = copy_range(target_values, target_offset, target_len);
        edges.push(EdgeInfo { sources, targets });
        source_offset = source_offset + source_len;
        target_offset = target_offset + target_len;
        edge_idx = edge_idx + 1;
    }
    Some(edges)
}

/// The source (or target) nodes of one edge.
pub open spec fn port_side(e: (Seq<usize>, Seq<usize>), sources: bool) -> Seq<usize> {
    if sources {
        e.0
    } else {
        e.1
    }
}

/// The ports of the first edges come first among the ports of all edges.
proof fn lemma_port_prefix(adj: Seq<(Seq<usize>, Seq<usize>)>, b: bool, k: int)
    requires
        0 <= k <= adj.len(),
    ensures
        port_values(adj.take(k), b).len() <= port_values(adj, b).len(),
        port_values(adj, b).subrange(0, port_values(adj.take(k), b).len() as int) == port_values(adj.take(k), b),
    decreases adj.len(),
{
    if k == adj.len() {
        assert(adj.take(k) =~= adj);
        assert(port_values(adj, b).subrange(0, port_values(adj, b).len() as int) =~= port_values(adj, b));
    } else {
        let d = adj.drop_last();
        lemma_port_prefix(d, b, k);
        assert(adj.take(k) =~= d.take(k));
        let whole = port_values(adj, b);
        assert(whole == port_values(d, b) + port_side(adj.last(), b));
        let m = port_values(d.take(k), b).len() as int;
        assert(whole.subrange(0, m) =~= port_values(d, b).subrange(0, m));
    }
}

/// The ports of the first `k + 1` edges are those of the first `k` and then
/// those of edge `k`.
proof fn lemma_port_step(adj: Seq<(Seq<usize>, Seq<usize>)>, b: bool, k: int)
    requires
        0 <= k < adj.len(),
    ensures
        port_values(adj.take(k + 1), b) == port_values(adj.take(k), b) + port_side(adj[k], b),
{
    assert(adj.take(k + 1).drop_last() =~= adj.take(k));
    assert(adj.take(k + 1).last() == adj[k]);
}

/// The lengths of the first `k` edges add up to the number of their ports.
proof fn lemma_port_sums(adj: Seq<(Seq<usize>, Seq<usize>)>, b: bool, k: int)
    requires
        0 <= k <= adj.len(),
        port_values(adj, b).len() <= usize::MAX,
    ensures
        prefix_sum(port_lengths(adj, b), k) == port_values(adj.take(k), b).len(),
    decreases k,
{
    if k > 0 {
        lemma_port_sums(adj, b, k - 1);
        lemma_port_step(adj, b, k - 1);
        lemma_port_prefix(adj, b, k);
        assert(port_side(adj[k - 1], b).len() <= usize::MAX);
        assert(port_lengths(adj, b)[k - 1] == port_side(adj[k - 1], b).len());
    } else {
        assert(adj.take(0) =~= Seq::<(Seq<usize>, Seq<usize>)>::empty());
    }
}

/// Segment `e` of the ports, cut by the lengths, is the ports of edge `e`.
proof fn lemma_port_segment(adj: Seq<(Seq<usize>, Seq<usize>)>, b: bool, e: int)
    requires
        0 <= e < adj.len(),
        port_values(adj, b).len() <= usize::MAX,
    ensures
        segment(port_lengths(adj, b), port_values(adj, b), e) == port_side(adj[e], b),
        port_side(adj[e], b).len() <= port_values(adj, b).len(),
{
    lemma_port_sums(adj, b, e);
    lemma_port_sums(adj, b, e + 1);
    lemma_port_step(adj, b, e);
    lemma_port_prefix(adj, b, e + 1);
    let whole = port_values(adj, b);
    let lo = port_values(adj.take(e), b).len() as int;
    let hi = port_values(adj.take(e + 1), b).len() as int;
    assert(whole.subrange(lo, hi) =~= whole.subrange(0, hi).subrange(lo, hi));
    assert(port_values(adj.take(e + 1), b).subrange(lo, hi) =~= port_side(adj[e], b));
}

/// `g` is the graph `graph` decoded: its labels are those of the graph's
/// model (up to the equality of nodes and edges), its edges have the
/// model's ports, and its nodes know their places in the model's boundary.
pub open spec fn decodes<S: Label, G: Label>(
    graph: MonomialGraph<S, G>,
    g: PreparedOpenHypergraph<MonomialHyperNode<S>, MonomialTapeEdge<S, G>>,
) -> bool {
    let m = graph.graph_view();
    &&& nodes_match(g.node_labels@, m.nodes)
    &&& g.edge_labels@.len() == m.edges.len()
    &&& forall|e: int| 0 <= e < m.edges.len() ==> edge_same(#[trigger] g.edge_labels@[e], m.edges[e])
    &&& g.edges@.len() == m.adjacency.len()
    &&& forall|e: int|
        0 <= e < m.adjacency.len() ==> (#[trigger] g.edges@[e]).sources@ == m.adjacency[e].0 && g.edges@[e].targets@
            == m.adjacency[e].1
    &&& g.source_len == m.sources.len()
    &&& g.target_len == m.targets.len()
    &&& forall|n: int|
        0 <= n < g.nodes@.len() ==> node_info_of(#[trigger] g.nodes@[n], g.edges@, m.sources, m.targets, n as usize)
}

impl<S: Label, G: Label> PreparedOpenHypergraph<MonomialHyperNode<S>, MonomialTapeEdge<S, G>> {
    /// Decodes a strict graph: its node and edge labels, the ports of each
    /// edge from the segmented source and target arrays, and its boundary.
    /// `None` when those arrays do not fit together (see `extract_edges` and
    /// `from_parts`), which no construction of the `open-hypergraphs` crate
    /// gives.
    pub fn new(graph: &MonomialGraph<S, G>) -> (r: Option<Self>)
        ensures
            r matches Some(g) ==> g.searchable(),
            graph.graph_view().wf() ==> (r matches Some(g) ==> decodes(*graph, g)),
            graph.graph_view().wf() && graph.graph_view().nodes.len() < usize::MAX && graph.graph_view().edges.len()
                < usize::MAX ==> r is Some,
    {
        let ghost m = graph.graph_view();
        let node_labels = node_labels(graph);
        let edge_labels = edge_labels(graph);
        let source_lengths = edge_source_lengths(graph);
        let source_values = edge_source_values(graph);
        let target_lengths = edge_target_lengths(graph);
        let target_values = edge_target_values(graph);
        let source_count = source_values.len();
        let target_count = target_values.len();
        proof {
            if m.wf() {
                lemma_port_sums(m.adjacency, true, m.adjacency.len() as int);
                lemma_port_sums(m.adjacency, false, m.adjacency.len() as int);
                assert(m.adjacency.take(m.adjacency.len() as int) =~= m.adjacency);
                assert(segments_fit(source_lengths@, source_values@.len(), edge_labels@.len() as nat));
                assert(segments_fit(target_lengths@, target_values@.len(), edge_labels@.len() as nat));
            }
        }
        let edges = match extract_edges(
            edge_labels.len(),
            &source_lengths,
            &source_values,
            &target_lengths,
            &target_values,
        ) {
            Some(edges) => edges,
            None => return None,
        };
        let sources = boundary_sources(graph);
        let targets = boundary_targets(graph);
        let sources_count = sources.len();
        let targets_count = targets.len();
        proof {
            if m.wf() {
                assert forall|e: int| 0 <= e < m.adjacency.len() implies (#[trigger] edges@[e]).sources@ == m.adjacency[e].0
                    && edges@[e].targets@ == m.adjacency[e].1 by {
                    lemma_port_segment(m.adjacency, true, e);
                    lemma_port_segment(m.adjacency, false, e);
                }
                assert forall|e: int| 0 <= e < edges@.len() implies #[trigger] edge_ports_ok(edges@[e], node_labels@.len()) by {
                    lemma_port_segment(m.adjacency, true, e);
                    lemma_port_segment(m.adjacency, false, e);
                    assert(below(m.adjacency[e].0, m.nodes.len() as int));
                    assert(below(m.adjacency[e].1, m.nodes.len() as int));
                }
                assert(below(m.sources, m.nodes.len() as int));
                assert(below(m.targets, m.nodes.len() as int));
                assert(all_below(sources@, node_labels@.len()));
                assert(all_below(targets@, node_labels@.len()));
                assert(ports_below(edges@, node_labels@.len()));
            }
        }
        let ghost el = edges@;
        let r = PreparedOpenHypergraph::from_parts(node_labels, edge_labels, edges, &sources, &targets);
        r
    }
}

} // verus!
