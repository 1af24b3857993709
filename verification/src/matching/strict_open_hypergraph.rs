//! Enumeration of the matches of a pattern open hypergraph in a host by
//! backtracking search: edges first, the most constrained element first,
//! and every host element used at most once.

use vstd::prelude::*;

use vstd::std_specs::cmp::PartialEqSpec;

use crate::label::Label;
use crate::rewriting::strict_graph::MonomialGraph;
use crate::tape_language::monomial_tape::{MonomialHyperNode, MonomialTapeEdge};
use crate::matching::prepared::{
    decodes, edge_ports_ok, record_holds, Direction, EdgeInfo, NodeInfo, PreparedOpenHypergraph,
};

verus! {

/// A match: the host node of each pattern node and the host edge of each
/// pattern edge.
#[derive(Debug)]
pub struct StrictOpenHypergraphMatch {
    pub node_map: Vec<usize>,
    pub edge_map: Vec<usize>,
}

/// Pattern node `pn` may stand for host node `hn` whatever else is mapped:
/// the labels agree, the node stands at the same boundary positions, and the
/// host node has at least as many edge ports on each side.
pub open spec fn node_static_ok<O: PartialEq, A: PartialEq>(
    p: &PreparedOpenHypergraph<O, A>,
    h: &PreparedOpenHypergraph<O, A>,
    pn: int,
    hn: int,
) -> bool {
    &&& p.node_labels@[pn].eq_spec(&h.node_labels@[hn])
    &&& p.nodes@[pn].source_positions@ == h.nodes@[hn].source_positions@
    &&& p.nodes@[pn].target_positions@ == h.nodes@[hn].target_positions@
    &&& p.nodes@[pn].source_incidence_count <= h.nodes@[hn].source_incidence_count
    &&& p.nodes@[pn].target_incidence_count <= h.nodes@[hn].target_incidence_count
}

/// The node map sends the pattern ports onto the host ports, port by port.
pub open spec fn ports_agree(pattern_ports: Seq<usize>, host_ports: Seq<usize>, node_map: Seq<usize>) -> bool {
    &&& pattern_ports.len() == host_ports.len()
    &&& forall|k: int| 0 <= k < pattern_ports.len() ==> node_map[pattern_ports[k] as int] == #[trigger] host_ports[k]
}

/// Pattern edge `pe` may stand for host edge `he` under the node map.
pub open spec fn edge_maps_to<O: PartialEq, A: PartialEq>(
    p: &PreparedOpenHypergraph<O, A>,
    h: &PreparedOpenHypergraph<O, A>,
    pe: int,
    he: int,
    node_map: Seq<usize>,
) -> bool {
    &&& p.edge_labels@[pe].eq_spec(&h.edge_labels@[he])
    &&& ports_agree(p.edges@[pe].sources@, h.edges@[he].sources@, node_map)
    &&& ports_agree(p.edges@[pe].targets@, h.edges@[he].targets@, node_map)
}

/// No two positions hold the same entry.
pub open spec fn injective(s: Seq<usize>) -> bool {
    forall|i: int, j: int| 0 <= i < s.len() && 0 <= j < s.len() && i != j ==> s[i] != s[j]
}

/// `node_map` and `edge_map` embed the pattern into the host: both are
/// injective, every edge goes to an edge with the same label and the same
/// nodes port by port, and every node to a node that passes
/// `node_static_ok`. The embedding need not be induced: the host may have
/// more edges between the images.
pub open spec fn is_match<O: PartialEq, A: PartialEq>(
    p: &PreparedOpenHypergraph<O, A>,
    h: &PreparedOpenHypergraph<O, A>,
    node_map: Seq<usize>,
    edge_map: Seq<usize>,
) -> bool {
    &&& node_map.len() == p.nodes@.len()
    &&& edge_map.len() == p.edges@.len()
    &&& forall|n: int|
        0 <= n < node_map.len() ==> #[trigger] node_map[n] < h.nodes@.len() && node_static_ok(
            p,
            h,
            n,
            node_map[n] as int,
        )
    &&& forall|e: int|
        0 <= e < edge_map.len() ==> #[trigger] edge_map[e] < h.edges@.len() && edge_maps_to(
            p,
            h,
            e,
            edge_map[e] as int,
            node_map,
        )
    &&& injective(node_map)
    &&& injective(edge_map)
}

/// The pattern is no larger than the host in boundary, nodes or edges.
pub open spec fn sizes_fit<O, A>(p: &PreparedOpenHypergraph<O, A>, h: &PreparedOpenHypergraph<O, A>) -> bool {
    &&& p.source_len <= h.source_len
    &&& p.target_len <= h.target_len
    &&& p.nodes@.len() <= h.nodes@.len()
    &&& p.edges@.len() <= h.edges@.len()
}

/// Position `k` of `ms` holds the match `(node_map, edge_map)`.
pub open spec fn match_at(ms: Seq<StrictOpenHypergraphMatch>, k: int, node_map: Seq<usize>, edge_map: Seq<usize>) -> bool {
    ms[k].node_map@ == node_map && ms[k].edge_map@ == edge_map
}

/// The match `(node_map, edge_map)` is among the positions from `lo` on.
pub open spec fn found_from(ms: Seq<StrictOpenHypergraphMatch>, lo: int, node_map: Seq<usize>, edge_map: Seq<usize>) -> bool {
    exists|k: int| lo <= k < ms.len() && #[trigger] match_at(ms, k, node_map, edge_map)
}

/// No match occurs twice among the positions from `lo` on.
pub open spec fn distinct_from(ms: Seq<StrictOpenHypergraphMatch>, lo: int) -> bool {
    forall|i: int, j: int|
        lo <= i < j < ms.len() ==> !(#[trigger] ms[i].node_map@ == #[trigger] ms[j].node_map@ && ms[i].edge_map@
            == ms[j].edge_map@)
}

/// The ports of edge `e` of a prepared graph name its nodes.
spec fn prepared_ports_ok<O, A>(g: &PreparedOpenHypergraph<O, A>, e: int) -> bool {
    &&& forall|k: int| 0 <= k < g.edges@[e].sources@.len() ==> #[trigger] g.edges@[e].sources@[k] < g.nodes@.len()
    &&& forall|k: int| 0 <= k < g.edges@[e].targets@.len() ==> #[trigger] g.edges@[e].targets@[k] < g.nodes@.len()
}

/// Which pattern element the search expands next.
enum NextPatternElement {
    Edge(usize),
    Node(usize),
}

/// The partial maps of the search, and which host elements they use.
struct SearchState {
    pattern_to_host_node: Vec<Option<usize>>,
    host_node_used: Vec<bool>,
    pattern_to_host_edge: Vec<Option<usize>>,
    host_edge_used: Vec<bool>,
}

/// Some position of `m` holds `Some(x)`.
spec fn image_has(m: Seq<Option<usize>>, x: usize) -> bool {
    exists|i: int| 0 <= i < m.len() && m[i] == Some(x)
}

/// A partial injective map into `0..bound`, with `used` marking its image.
spec fn partial_map_ok(m: Seq<Option<usize>>, used: Seq<bool>, bound: nat) -> bool {
    &&& used.len() == bound
    &&& forall|i: int| 0 <= i < m.len() && #[trigger] m[i] is Some ==> m[i]->0 < bound && used[m[i]->0 as int]
    &&& forall|x: int| 0 <= x < bound && #[trigger] used[x] ==> image_has(m, x as usize)
    &&& forall|i: int, j: int|
        0 <= i < m.len() && 0 <= j < m.len() && i != j && #[trigger] m[i] is Some && #[trigger] m[j] is Some ==> m[i]
            != m[j]
}

/// The maps of the state have the right lengths and are partial injective maps.
spec fn maps_ok<O, A>(p: &PreparedOpenHypergraph<O, A>, h: &PreparedOpenHypergraph<O, A>, s: &SearchState) -> bool {
    &&& s.pattern_to_host_node@.len() == p.nodes@.len()
    &&& s.pattern_to_host_edge@.len() == p.edges@.len()
    &&& partial_map_ok(s.pattern_to_host_node@, s.host_node_used@, h.nodes@.len())
    &&& partial_map_ok(s.pattern_to_host_edge@, s.host_edge_used@, h.edges@.len())
}

/// Every mapped pattern node passes `node_static_ok`.
spec fn mapped_nodes_ok<O: PartialEq, A: PartialEq>(
    p: &PreparedOpenHypergraph<O, A>,
    h: &PreparedOpenHypergraph<O, A>,
    s: &SearchState,
) -> bool {
    forall|n: int|
        0 <= n < s.pattern_to_host_node@.len() && #[trigger] s.pattern_to_host_node@[n] is Some ==> node_static_ok(
            p,
            h,
            n,
            s.pattern_to_host_node@[n]->0 as int,
        )
}

/// The partial node map sends the pattern ports onto the host ports, every
/// pattern port being mapped.
spec fn ports_mapped(pattern_ports: Seq<usize>, host_ports: Seq<usize>, pn: Seq<Option<usize>>) -> bool {
    &&& pattern_ports.len() == host_ports.len()
    &&& forall|k: int| 0 <= k < pattern_ports.len() ==> pn[pattern_ports[k] as int] == Some(#[trigger] host_ports[k])
}

/// Mapped pattern edge `pe` agrees in label with `he`, and all its ports are
/// mapped onto those of `he`.
spec fn edge_mapped_ok<O: PartialEq, A: PartialEq>(
    p: &PreparedOpenHypergraph<O, A>,
    h: &PreparedOpenHypergraph<O, A>,
    pe: int,
    he: int,
    pn: Seq<Option<usize>>,
) -> bool {
    &&& p.edge_labels@[pe].eq_spec(&h.edge_labels@[he])
    &&& ports_mapped(p.edges@[pe].sources@, h.edges@[he].sources@, pn)
    &&& ports_mapped(p.edges@[pe].targets@, h.edges@[he].targets@, pn)
}

/// Every mapped pattern edge but `skip` passes `edge_mapped_ok`.
spec fn mapped_edges_ok<O: PartialEq, A: PartialEq>(
    p: &PreparedOpenHypergraph<O, A>,
    h: &PreparedOpenHypergraph<O, A>,
    s: &SearchState,
    skip: int,
) -> bool {
    forall|e: int|
        0 <= e < s.pattern_to_host_edge@.len() && #[trigger] s.pattern_to_host_edge@[e] is Some && e != skip
            ==> edge_mapped_ok(p, h, e, s.pattern_to_host_edge@[e]->0 as int, s.pattern_to_host_node@)
}

/// Pattern edge `pe` and host edge `he` have as many sources and as many
/// targets.
spec fn edge_shapes_agree<O, A>(p: &PreparedOpenHypergraph<O, A>, h: &PreparedOpenHypergraph<O, A>, pe: int, he: int) -> bool {
    &&& p.edges@[pe].sources@.len() == h.edges@[he].sources@.len()
    &&& p.edges@[pe].targets@.len() == h.edges@[he].targets@.len()
}

/// Every mapped pattern edge has the shape of its host edge.
spec fn mapped_edges_shaped<O, A>(p: &PreparedOpenHypergraph<O, A>, h: &PreparedOpenHypergraph<O, A>, s: &SearchState) -> bool {
    forall|e: int|
        0 <= e < s.pattern_to_host_edge@.len() && #[trigger] s.pattern_to_host_edge@[e] is Some ==> edge_shapes_agree(
            p,
            h,
            e,
            s.pattern_to_host_edge@[e]->0 as int,
        )
}

/// A state of the search: partial maps, each mapped element consistent.
spec fn state_ok<O: PartialEq, A: PartialEq>(
    p: &PreparedOpenHypergraph<O, A>,
    h: &PreparedOpenHypergraph<O, A>,
    s: &SearchState,
) -> bool {
    &&& maps_ok(p, h, s)
    &&& mapped_nodes_ok(p, h, s)
    &&& mapped_edges_ok(p, h, s, -1)
    &&& mapped_edges_shaped(p, h, s)
}

/// The full maps agree with every mapped element of the partial maps.
spec fn extends(s: &SearchState, node_map: Seq<usize>, edge_map: Seq<usize>) -> bool {
    &&& forall|n: int|
        0 <= n < s.pattern_to_host_node@.len() && #[trigger] s.pattern_to_host_node@[n] is Some
            ==> node_map[n] == s.pattern_to_host_node@[n]->0
    &&& forall|e: int|
        0 <= e < s.pattern_to_host_edge@.len() && #[trigger] s.pattern_to_host_edge@[e] is Some
            ==> edge_map[e] == s.pattern_to_host_edge@[e]->0
}

/// A match that agrees with the state.
spec fn valid_ext<O: PartialEq, A: PartialEq>(
    p: &PreparedOpenHypergraph<O, A>,
    h: &PreparedOpenHypergraph<O, A>,
    s: &SearchState,
    node_map: Seq<usize>,
    edge_map: Seq<usize>,
) -> bool {
    is_match(p, h, node_map, edge_map) && extends(s, node_map, edge_map)
}

/// Decides whether every entry is `Some`.
fn all_some(v: &Vec<Option<usize>>) -> (r: bool)
    ensures
        r == (forall|i: int| 0 <= i < v@.len() ==> #[trigger] v@[i] is Some),
{
    let mut i: usize = 0;
    while i < v.len()
        invariant
            i <= v@.len(),
            forall|k: int| 0 <= k < i ==> #[trigger] v@[k] is Some,
        decreases v@.len() - i,
    {
        if v[i].is_none() {
            return false;
        }
        i = i + 1;
    }
    true
}

/// Decides whether two vectors of indices are equal.
fn same_indices(a: &Vec<usize>, b: &Vec<usize>) -> (r: bool)
    ensures
        r == (a@ == b@),
{
    if a.len() != b.len() {
        return false;
    }
    let mut i: usize = 0;
    while i < a.len()
        invariant
            a@.len() == b@.len(),
            i <= a@.len(),
            forall|k: int| 0 <= k < i ==> a@[k] == b@[k],
        decreases a@.len() - i,
    {
        if a[i] != b[i] {
            return false;
        }
        i = i + 1;
    }
    assert(a@ =~= b@);
    true
}

/// Decides `node_static_ok`.
fn node_candidate_static_ok<O: PartialEq, A: PartialEq>(
    pattern: &PreparedOpenHypergraph<O, A>,
    host: &PreparedOpenHypergraph<O, A>,
    pattern_node: usize,
    host_node: usize,
) -> (r: bool)
    requires
        pattern.searchable(),
        host.searchable(),
        pattern_node < pattern.nodes@.len(),
        host_node < host.nodes@.len(),
    ensures
        r == node_static_ok(pattern, host, pattern_node as int, host_node as int),
{
    if !pattern.node_label(pattern_node).eq(host.node_label(host_node)) {
        return false;
    }
    let p_node = pattern.node(pattern_node);
    let h_node = host.node(host_node);
    same_indices(&p_node.source_positions, &h_node.source_positions) && same_indices(
        &p_node.target_positions,
        &h_node.target_positions,
    ) && p_node.source_incidence_count <= h_node.source_incidence_count && p_node.target_incidence_count
        <= h_node.target_incidence_count
}

/// The host port that an incidence record of the pattern points at, in the
/// host edge `he`.
spec fn host_port<O, A>(h: &PreparedOpenHypergraph<O, A>, he: int, direction: Direction, port: int) -> usize {
    match direction {
        Direction::Source => h.edges@[he].sources@[port],
        Direction::Target => h.edges@[he].targets@[port],
    }
}

/// Every mapped edge at pattern node `pn` has host node `hn` at the
/// corresponding port.
spec fn incidence_consistent<O, A>(
    p: &PreparedOpenHypergraph<O, A>,
    h: &PreparedOpenHypergraph<O, A>,
    s: &SearchState,
    pn: int,
    hn: usize,
) -> bool {
    forall|i: int|
        0 <= i < p.nodes@[pn].incident_edges@.len() && #[trigger] s.pattern_to_host_edge@[p.nodes@[pn].incident_edges@[i].edge as int] is Some
            ==> host_port(
            h,
            s.pattern_to_host_edge@[p.nodes@[pn].incident_edges@[i].edge as int]->0 as int,
            p.nodes@[pn].incident_edges@[i].direction,
            p.nodes@[pn].incident_edges@[i].port as int,
        ) == hn
}

/// Decides `incidence_consistent`.
fn node_incidence_consistent<O: PartialEq, A: PartialEq>(
    pattern: &PreparedOpenHypergraph<O, A>,
    host: &PreparedOpenHypergraph<O, A>,
    state: &SearchState,
    pattern_node: usize,
    host_node: usize,
) -> (r: bool)
    requires
        pattern.searchable(),
        host.searchable(),
        maps_ok(pattern, host, state),
        mapped_edges_shaped(pattern, host, state),
        pattern_node < pattern.nodes@.len(),
    ensures
        r == incidence_consistent(pattern, host, state, pattern_node as int, host_node),
{
    let incident = &pattern.node(pattern_node).incident_edges;
    let mut i: usize = 0;
    while i < incident.len()
        invariant
            pattern.searchable(),
            maps_ok(pattern, host, state),
            mapped_edges_shaped(pattern, host, state),
            pattern_node < pattern.nodes@.len(),
            *incident == pattern.nodes@[pattern_node as int].incident_edges,
            i <= incident@.len(),
            forall|k: int|
                0 <= k < i && #[trigger] state.pattern_to_host_edge@[incident@[k].edge as int] is Some ==> host_port(
                    host,
                    state.pattern_to_host_edge@[incident@[k].edge as int]->0 as int,
                    incident@[k].direction,
                    incident@[k].port as int,
                ) == host_node,
        decreases incident@.len() - i,
    {
        let record = incident[i];
        assert(record_holds(pattern.edges@, pattern.nodes@[pattern_node as int].incident_edges@[i as int], pattern_node));
        match state.pattern_to_host_edge[record.edge] {
            None => {},
            Some(host_edge) => {
                assert(edge_shapes_agree(pattern, host, record.edge as int, host_edge as int));
                let host_edge_info = host.edge(host_edge);
                let actual_host_node = match record.direction {
                    Direction::Source => host_edge_info.sources[record.port],
                    Direction::Target => host_edge_info.targets[record.port],
                };
                if actual_host_node != host_node {
                    return false;
                }
            },
        }
        i = i + 1;
    }
    true
}

/// Decides whether pattern node `pn` may be mapped to `hn` now.
fn node_candidate_ok<O: PartialEq, A: PartialEq>(
    pattern: &PreparedOpenHypergraph<O, A>,
    host: &PreparedOpenHypergraph<O, A>,
    state: &SearchState,
    pattern_node: usize,
    host_node: usize,
) -> (r: bool)
    requires
        pattern.searchable(),
        host.searchable(),
        maps_ok(pattern, host, state),
        mapped_edges_shaped(pattern, host, state),
        pattern_node < pattern.nodes@.len(),
        host_node < host.nodes@.len(),
    ensures
        r == (node_static_ok(pattern, host, pattern_node as int, host_node as int) && incidence_consistent(
            pattern,
            host,
            state,
            pattern_node as int,
            host_node,
        )),
{
    node_candidate_static_ok(pattern, host, pattern_node, host_node) && node_incidence_consistent(
        pattern,
        host,
        state,
        pattern_node,
        host_node,
    )
}

/// The pairs of `pairs` that every match agreeing with the state and sending
/// `pe` to `he` sends each pattern node of a pair to its host node.
spec fn pairs_forced<O: PartialEq, A: PartialEq>(
    p: &PreparedOpenHypergraph<O, A>,
    h: &PreparedOpenHypergraph<O, A>,
    s: &SearchState,
    pe: int,
    he: usize,
    pairs: Seq<(usize, usize)>,
) -> bool {
    forall|nm: Seq<usize>, em: Seq<usize>|
        #[trigger] valid_ext(p, h, s, nm, em) && em[pe] == he ==> forall|i: int|
            0 <= i < pairs.len() ==> nm[#[trigger] pairs[i].0 as int] == pairs[i].1
}

/// The index of the first pair whose pattern node is `key`.
fn find_key(pairs: &Vec<(usize, usize)>, key: usize) -> (r: Option<usize>)
    ensures
        r matches Some(i) ==> i < pairs@.len() && pairs@[i as int].0 == key,
        r is None ==> forall|i: int| 0 <= i < pairs@.len() ==> #[trigger] pairs@[i].0 != key,
{
    let mut i: usize = 0;
    while i < pairs.len()
        invariant
            i <= pairs@.len(),
            forall|k: int| 0 <= k < i ==> #[trigger] pairs@[k].0 != key,
        decreases pairs@.len() - i,
    {
        if pairs[i].0 == key {
            return Some(i);
        }
        i = i + 1;
    }
    None
}

/// The index of the first occurrence of `x`.
fn find_index(v: &Vec<usize>, x: usize) -> (r: Option<usize>)
    ensures
        r matches Some(i) ==> i < v@.len() && v@[i as int] == x,
        r is None ==> forall|i: int| 0 <= i < v@.len() ==> #[trigger] v@[i] != x,
{
    let mut i: usize = 0;
    while i < v.len()
        invariant
            i <= v@.len(),
            forall|k: int| 0 <= k < i ==> #[trigger] v@[k] != x,
        decreases v@.len() - i,
    {
        if v[i] == x {
            return Some(i);
        }
        i = i + 1;
    }
    None
}

/// A host node that the state uses is the image of a mapped pattern node,
/// so no match agreeing with the state sends an unmapped pattern node there.
proof fn lemma_used_node_taken<O: PartialEq, A: PartialEq>(
    p: &PreparedOpenHypergraph<O, A>,
    h: &PreparedOpenHypergraph<O, A>,
    s: &SearchState,
    nm: Seq<usize>,
    em: Seq<usize>,
    x: int,
)
    requires
        maps_ok(p, h, s),
        valid_ext(p, h, s, nm, em),
        0 <= x < p.nodes@.len(),
        s.pattern_to_host_node@[x] is None,
    ensures
        !s.host_node_used@[nm[x] as int],
{
    if s.host_node_used@[nm[x] as int] {
        assert(nm[x] < h.nodes@.len());
        assert(image_has(s.pattern_to_host_node@, nm[x]));
        let i = choose|i: int|
            0 <= i < s.pattern_to_host_node@.len() && s.pattern_to_host_node@[i] == Some(nm[x]);
        assert(s.pattern_to_host_node@[i] is Some);
        assert(nm[i] == nm[x]);
    }
}

/// A host edge that the state uses is the image of a mapped pattern edge.
proof fn lemma_used_edge_taken<O: PartialEq, A: PartialEq>(
    p: &PreparedOpenHypergraph<O, A>,
    h: &PreparedOpenHypergraph<O, A>,
    s: &SearchState,
    nm: Seq<usize>,
    em: Seq<usize>,
    x: int,
)
    requires
        maps_ok(p, h, s),
        valid_ext(p, h, s, nm, em),
        0 <= x < p.edges@.len(),
        s.pattern_to_host_edge@[x] is None,
    ensures
        !s.host_edge_used@[em[x] as int],
{
    if s.host_edge_used@[em[x] as int] {
        assert(em[x] < h.edges@.len());
        assert(image_has(s.pattern_to_host_edge@, em[x]));
        let i = choose|i: int|
            0 <= i < s.pattern_to_host_edge@.len() && s.pattern_to_host_edge@[i] == Some(em[x]);
        assert(s.pattern_to_host_edge@[i] is Some);
        assert(em[i] == em[x]);
    }
}

/// Every match that agrees with the state and sends `pe` to `he` sends the
/// pattern node at a port of `pe` to the host node at the same port of `he`.
proof fn lemma_port_forced<O: PartialEq, A: PartialEq>(
    p: &PreparedOpenHypergraph<O, A>,
    h: &PreparedOpenHypergraph<O, A>,
    s: &SearchState,
    pe: int,
    he: usize,
    k: int,
    direction: Direction,
)
    requires
        0 <= pe < p.edges@.len(),
        0 <= k < (if direction == Direction::Source {
            p.edges@[pe].sources@.len()
        } else {
            p.edges@[pe].targets@.len()
        }),
    ensures
        forall|nm: Seq<usize>, em: Seq<usize>|
            #[trigger] valid_ext(p, h, s, nm, em) && em[pe] == he ==> (if direction == Direction::Source {
                nm[p.edges@[pe].sources@[k] as int] == h.edges@[he as int].sources@[k]
            } else {
                nm[p.edges@[pe].targets@[k] as int] == h.edges@[he as int].targets@[k]
            }),
{
    assert forall|nm: Seq<usize>, em: Seq<usize>| #[trigger] valid_ext(p, h, s, nm, em) && em[pe] == he implies (
    if direction == Direction::Source {
        nm[p.edges@[pe].sources@[k] as int] == h.edges@[he as int].sources@[k]
    } else {
        nm[p.edges@[pe].targets@[k] as int] == h.edges@[he as int].targets@[k]
    }) by {
        assert(edge_maps_to(p, h, pe, em[pe] as int, nm));
        if direction == Direction::Source {
            assert(h.edges@[he as int].sources@[k] == h.edges@[he as int].sources@[k]);
        } else {
            assert(h.edges@[he as int].targets@[k] == h.edges@[he as int].targets@[k]);
        }
    }
}

/// Adding a forced pair keeps the pairs forced.
proof fn lemma_push_forced<O: PartialEq, A: PartialEq>(
    p: &PreparedOpenHypergraph<O, A>,
    h: &PreparedOpenHypergraph<O, A>,
    s: &SearchState,
    pe: int,
    he: usize,
    pairs: Seq<(usize, usize)>,
    x: usize,
    y: usize,
)
    requires
        pairs_forced(p, h, s, pe, he, pairs),
        forall|nm: Seq<usize>, em: Seq<usize>| #[trigger] valid_ext(p, h, s, nm, em) && em[pe] == he ==> nm[x as int] == y,
    ensures
        pairs_forced(p, h, s, pe, he, pairs.push((x, y))),
{
    assert forall|nm: Seq<usize>, em: Seq<usize>| #[trigger] valid_ext(p, h, s, nm, em) && em[pe] == he implies forall|i: int|
        0 <= i < pairs.push((x, y)).len() ==> nm[#[trigger] pairs.push((x, y))[i].0 as int] == pairs.push((x, y))[i].1 by {
        assert forall|i: int| 0 <= i < pairs.push((x, y)).len() implies nm[#[trigger] pairs.push((x, y))[i].0 as int]
            == pairs.push((x, y))[i].1 by {
            if i < pairs.len() {
                assert(pairs.push((x, y))[i] == pairs[i]);
            }
        }
    }
}

/// Two pattern nodes that the pairs force onto one host node, one of them
/// unmapped: no match agrees with the state and sends `pe` to `he`.
proof fn lemma_forced_clash<O: PartialEq, A: PartialEq>(
    p: &PreparedOpenHypergraph<O, A>,
    h: &PreparedOpenHypergraph<O, A>,
    s: &SearchState,
    pe: int,
    he: usize,
    pairs: Seq<(usize, usize)>,
    i: int,
    x: usize,
    y: usize,
)
    requires
        pairs_forced(p, h, s, pe, he, pairs),
        0 <= i < pairs.len(),
        pairs[i].0 != x,
        pairs[i].1 == y,
        pairs[i].0 < p.nodes@.len(),
        x < p.nodes@.len(),
        forall|nm: Seq<usize>, em: Seq<usize>| #[trigger] valid_ext(p, h, s, nm, em) && em[pe] == he ==> nm[x as int] == y,
    ensures
        forall|nm: Seq<usize>, em: Seq<usize>| #[trigger] valid_ext(p, h, s, nm, em) && em[pe] == he ==> false,
{
    assert forall|nm: Seq<usize>, em: Seq<usize>| #[trigger] valid_ext(p, h, s, nm, em) && em[pe] == he implies false by {
        assert(nm[pairs[i].0 as int] == pairs[i].1);
        assert(injective(nm));
    }
}

/// Decides cheaply whether pattern edge `pattern_edge` may be mapped to
/// `host_edge` now: same label and shape, every port either mapped to the
/// host port or free to go there, and the ports of the edge forcing no
/// pattern node onto two host nodes nor two unmapped pattern nodes onto
/// one. It never refuses a host edge that some match agreeing with the state
/// uses.
fn edge_candidate_ok<O: PartialEq, A: PartialEq>(
    pattern: &PreparedOpenHypergraph<O, A>,
    host: &PreparedOpenHypergraph<O, A>,
    state: &SearchState,
    pattern_edge: usize,
    host_edge: usize,
) -> (r: bool)
    requires
        pattern.searchable(),
        host.searchable(),
        state_ok(pattern, host, state),
        pattern_edge < pattern.edges@.len(),
        host_edge < host.edges@.len(),
    ensures
        r ==> pattern.edge_labels@[pattern_edge as int].eq_spec(&host.edge_labels@[host_edge as int])
            && edge_shapes_agree(pattern, host, pattern_edge as int, host_edge as int),
        forall|nm: Seq<usize>, em: Seq<usize>|
            #[trigger] valid_ext(pattern, host, state, nm, em) && em[pattern_edge as int] == host_edge ==> r,
{
    if !pattern.edge_label(pattern_edge).eq(host.edge_label(host_edge)) {
        proof {
            assert forall|nm: Seq<usize>, em: Seq<usize>|
                #[trigger] valid_ext(pattern, host, state, nm, em) && em[pattern_edge as int] == host_edge implies false by {
                assert(edge_maps_to(pattern, host, pattern_edge as int, em[pattern_edge as int] as int, nm));
            }
        }
        return false;
    }
    let p_edge = pattern.edge(pattern_edge);
    let h_edge = host.edge(host_edge);
    if p_edge.sources.len() != h_edge.sources.len() || p_edge.targets.len() != h_edge.targets.len() {
        proof {
            assert forall|nm: Seq<usize>, em: Seq<usize>|
                #[trigger] valid_ext(pattern, host, state, nm, em) && em[pattern_edge as int] == host_edge implies false by {
                assert(edge_maps_to(pattern, host, pattern_edge as int, em[pattern_edge as int] as int, nm));
            }
        }
        return false;
    }
    assert(edge_ports_ok(pattern.edges@[pattern_edge as int], pattern.nodes@.len()));
    assert(edge_ports_ok(host.edges@[host_edge as int], host.nodes@.len()));
    assert(prepared_ports_ok(pattern, pattern_edge as int));
    assert(prepared_ports_ok(host, host_edge as int));
    let mut k: usize = 0;
    while k < p_edge.sources.len()
        invariant
            pattern.searchable(),
            host.searchable(),
            state_ok(pattern, host, state),
            pattern_edge < pattern.edges@.len(),
            host_edge < host.edges@.len(),
            *p_edge == pattern.edges@[pattern_edge as int],
            *h_edge == host.edges@[host_edge as int],
            p_edge.sources@.len() == h_edge.sources@.len(),
            prepared_ports_ok(pattern, pattern_edge as int),
            prepared_ports_ok(host, host_edge as int),
            k <= p_edge.sources@.len(),
        decreases p_edge.sources@.len() - k,
    {
        let pattern_node = p_edge.sources[k];
        let host_node = h_edge.sources[k];
        match state.pattern_to_host_node[pattern_node] {
            Some(mapped) => {
                if mapped != host_node {
                    proof {
                        assert forall|nm: Seq<usize>, em: Seq<usize>|
                            #[trigger] valid_ext(pattern, host, state, nm, em) && em[pattern_edge as int] == host_edge implies false by {
                            assert(edge_maps_to(pattern, host, pattern_edge as int, em[pattern_edge as int] as int, nm));
                            assert(host.edges@[host_edge as int].sources@[k as int] == host_node);
                            assert(state.pattern_to_host_node@[pattern_node as int] is Some);
                        }
                    }
                    return false;
                }
            },
            None => {
                if state.host_node_used[host_node] || !node_candidate_static_ok(pattern, host, pattern_node, host_node) {
                    proof {
                        assert forall|nm: Seq<usize>, em: Seq<usize>|
                            #[trigger] valid_ext(pattern, host, state, nm, em) && em[pattern_edge as int] == host_edge implies false by {
                            assert(edge_maps_to(pattern, host, pattern_edge as int, em[pattern_edge as int] as int, nm));
                            assert(host.edges@[host_edge as int].sources@[k as int] == host_node);
                            assert(nm[pattern_node as int] == host_node);
                            lemma_used_node_taken(pattern, host, state, nm, em, pattern_node as int);
                            assert(nm[pattern_node as int] < host.nodes@.len());
                        }
                    }
                    return false;
                }
            },
        }
        k = k + 1;
    }
    let mut k: usize = 0;
    while k < p_edge.targets.len()
        invariant
            pattern.searchable(),
            host.searchable(),
            state_ok(pattern, host, state),
            pattern_edge < pattern.edges@.len(),
            host_edge < host.edges@.len(),
            *p_edge == pattern.edges@[pattern_edge as int],
            *h_edge == host.edges@[host_edge as int],
            p_edge.targets@.len() == h_edge.targets@.len(),
            prepared_ports_ok(pattern, pattern_edge as int),
            prepared_ports_ok(host, host_edge as int),
            k <= p_edge.targets@.len(),
        decreases p_edge.targets@.len() - k,
    {
        let pattern_node = p_edge.targets[k];
        let host_node = h_edge.targets[k];
        match state.pattern_to_host_node[pattern_node] {
            Some(mapped) => {
                if mapped != host_node {
                    proof {
                        assert forall|nm: Seq<usize>, em: Seq<usize>|
                            #[trigger] valid_ext(pattern, host, state, nm, em) && em[pattern_edge as int] == host_edge implies false by {
                            assert(edge_maps_to(pattern, host, pattern_edge as int, em[pattern_edge as int] as int, nm));
                            assert(host.edges@[host_edge as int].targets@[k as int] == host_node);
                            assert(state.pattern_to_host_node@[pattern_node as int] is Some);
                        }
                    }
                    return false;
                }
            },
            None => {
                if state.host_node_used[host_node] || !node_candidate_static_ok(pattern, host, pattern_node, host_node) {
                    proof {
                        assert forall|nm: Seq<usize>, em: Seq<usize>|
                            #[trigger] valid_ext(pattern, host, state, nm, em) && em[pattern_edge as int] == host_edge implies false by {
                            assert(edge_maps_to(pattern, host, pattern_edge as int, em[pattern_edge as int] as int, nm));
                            assert(host.edges@[host_edge as int].targets@[k as int] == host_node);
                            assert(nm[pattern_node as int] == host_node);
                            lemma_used_node_taken(pattern, host, state, nm, em, pattern_node as int);
                            assert(nm[pattern_node as int] < host.nodes@.len());
                        }
                    }
                    return false;
                }
            },
        }
        k = k + 1;
    }
    let mut local_pattern_to_host: Vec<(usize, usize)> = Vec::new();
    let mut local_host_used: Vec<usize> = Vec::new();
    let ghost mut owner: Seq<int> = Seq::empty();
    let mut k: usize = 0;
    while k < p_edge.sources.len()
        invariant
            pattern.searchable(),
            host.searchable(),
            state_ok(pattern, host, state),
            pattern_edge < pattern.edges@.len(),
            host_edge < host.edges@.len(),
            *p_edge == pattern.edges@[pattern_edge as int],
            *h_edge == host.edges@[host_edge as int],
            p_edge.sources@.len() == h_edge.sources@.len(),
            prepared_ports_ok(pattern, pattern_edge as int),
            k <= p_edge.sources@.len(),
            pairs_forced(pattern, host, state, pattern_edge as int, host_edge, local_pattern_to_host@),
            forall|i: int| 0 <= i < local_pattern_to_host@.len() ==> #[trigger] local_pattern_to_host@[i].0 < pattern.nodes@.len(),
            owner.len() == local_host_used@.len(),
            forall|j: int|
                0 <= j < owner.len() ==> 0 <= #[trigger] owner[j] < local_pattern_to_host@.len()
                    && local_pattern_to_host@[owner[j]].1 == local_host_used@[j],
        decreases p_edge.sources@.len() - k,
    {
        let pattern_node = p_edge.sources[k];
        let host_node = h_edge.sources[k];
        proof {
            lemma_port_forced(pattern, host, state, pattern_edge as int, host_edge, k as int, Direction::Source);
        }
        match find_key(&local_pattern_to_host, pattern_node) {
            Some(i) => {
                if local_pattern_to_host[i].1 != host_node {
                    proof {
                        assert forall|nm: Seq<usize>, em: Seq<usize>|
                            #[trigger] valid_ext(pattern, host, state, nm, em) && em[pattern_edge as int] == host_edge implies false by {
                            assert(nm[local_pattern_to_host@[i as int].0 as int] == local_pattern_to_host@[i as int].1);
                        }
                    }
                    return false;
                }
            },
            None => {
                let ghost old_pairs = local_pattern_to_host@;
                local_pattern_to_host.push((pattern_node, host_node));
                proof {
                    lemma_push_forced(pattern, host, state, pattern_edge as int, host_edge, old_pairs, pattern_node, host_node);
                }
                if state.pattern_to_host_node[pattern_node].is_none() {
                    match find_index(&local_host_used, host_node) {
                        Some(j) => {
                            proof {
                                let o = owner[j as int];
                                assert(old_pairs[o].0 != pattern_node);
                                assert(local_pattern_to_host@[o] == old_pairs[o]);
                                lemma_forced_clash(pattern, host, state, pattern_edge as int, host_edge, local_pattern_to_host@, o, pattern_node, host_node);
                            }
                            return false;
                        },
                        None => {
                            local_host_used.push(host_node);
                            proof {
                                owner = owner.push(old_pairs.len() as int);
                            }
                        },
                    }
                }
            },
        }
        k = k + 1;
    }

        let mut k: usize = 0;
    while k < p_edge.targets.len()
        invariant
            pattern.searchable(),
            host.searchable(),
            state_ok(pattern, host, state),
            pattern_edge < pattern.edges@.len(),
            host_edge < host.edges@.len(),
            *p_edge == pattern.edges@[pattern_edge as int],
            *h_edge == host.edges@[host_edge as int],
            p_edge.targets@.len() == h_edge.targets@.len(),
            prepared_ports_ok(pattern, pattern_edge as int),
            k <= p_edge.targets@.len(),
            pairs_forced(pattern, host, state, pattern_edge as int, host_edge, local_pattern_to_host@),
            forall|i: int| 0 <= i < local_pattern_to_host@.len() ==> #[trigger] local_pattern_to_host@[i].0 < pattern.nodes@.len(),
            owner.len() == local_host_used@.len(),
            forall|j: int|
                0 <= j < owner.len() ==> 0 <= #[trigger] owner[j] < local_pattern_to_host@.len()
                    && local_pattern_to_host@[owner[j]].1 == local_host_used@[j],
        decreases p_edge.targets@.len() - k,
    {
        let pattern_node = p_edge.targets[k];
        let host_node = h_edge.targets[k];
        proof {
            lemma_port_forced(pattern, host, state, pattern_edge as int, host_edge, k as int, Direction::Target);
        }
        match find_key(&local_pattern_to_host, pattern_node) {
            Some(i) => {
                if local_pattern_to_host[i].1 != host_node {
                    proof {
                        assert forall|nm: Seq<usize>, em: Seq<usize>|
                            #[trigger] valid_ext(pattern, host, state, nm, em) && em[pattern_edge as int] == host_edge implies false by {
                            assert(nm[local_pattern_to_host@[i as int].0 as int] == local_pattern_to_host@[i as int].1);
                        }
                    }
                    return false;
                }
            },
            None => {
                let ghost old_pairs = local_pattern_to_host@;
                local_pattern_to_host.push((pattern_node, host_node));
                proof {
                    lemma_push_forced(pattern, host, state, pattern_edge as int, host_edge, old_pairs, pattern_node, host_node);
                }
                if state.pattern_to_host_node[pattern_node].is_none() {
                    match find_index(&local_host_used, host_node) {
                        Some(j) => {
                            proof {
                                let o = owner[j as int];
                                assert(old_pairs[o].0 != pattern_node);
                                assert(local_pattern_to_host@[o] == old_pairs[o]);
                                lemma_forced_clash(pattern, host, state, pattern_edge as int, host_edge, local_pattern_to_host@, o, pattern_node, host_node);
                            }
                            return false;
                        },
                        None => {
                            local_host_used.push(host_node);
                            proof {
                                owner = owner.push(old_pairs.len() as int);
                            }
                        },
                    }
                }
            },
        }
        k = k + 1;
    }
    true
}

/// Number of unmapped positions.
spec fn nones(m: Seq<Option<usize>>) -> nat
    decreases m.len(),
{
    if m.len() == 0 {
        0
    } else {
        nones(m.drop_last()) + if m.last() is None {
            1nat
        } else {
            0nat
        }
    }
}

/// Mapping an unmapped position removes one unmapped position.
proof fn lemma_nones_map(m: Seq<Option<usize>>, i: int, y: usize)
    requires
        0 <= i < m.len(),
        m[i] is None,
    ensures
        nones(m.update(i, Some(y))) + 1 == nones(m),
    decreases m.len(),
{
    let u = m.update(i, Some(y));
    if i == m.len() - 1 {
        assert(u.drop_last() =~= m.drop_last());
    } else {
        assert(u.drop_last() =~= m.drop_last().update(i, Some(y)));
        lemma_nones_map(m.drop_last(), i, y);
    }
}

/// Some pair of `a` has pattern node `n`.
spec fn key_in(a: Seq<(usize, usize)>, n: int) -> bool
    decreases a.len(),
{
    a.len() > 0 && (a.last().0 == n || key_in(a.drop_last(), n))
}

/// Some pair of `a` has host node `x`.
spec fn host_in(a: Seq<(usize, usize)>, x: int) -> bool
    decreases a.len(),
{
    a.len() > 0 && (a.last().1 == x || host_in(a.drop_last(), x))
}

/// A pair in `a` has its pattern node among the keys and its host node among
/// the hosts.
proof fn lemma_in_pairs(a: Seq<(usize, usize)>, i: int)
    requires
        0 <= i < a.len(),
    ensures
        key_in(a, a[i].0 as int),
        host_in(a, a[i].1 as int),
    decreases a.len(),
{
    if i < a.len() - 1 {
        lemma_in_pairs(a.drop_last(), i);
    }
}

/// `s` is `s0` with the node pairs of `a` added: each pair was free in `s0`,
/// is mapped in `s`, and nothing else changed.
spec fn assigned_ok(s0: &SearchState, s: &SearchState, a: Seq<(usize, usize)>) -> bool {
    &&& s.pattern_to_host_edge@ == s0.pattern_to_host_edge@
    &&& s.host_edge_used@ == s0.host_edge_used@
    &&& s.pattern_to_host_node@.len() == s0.pattern_to_host_node@.len()
    &&& s.host_node_used@.len() == s0.host_node_used@.len()
    &&& forall|i: int|
        0 <= i < a.len() ==> {
            &&& (#[trigger] a[i]).0 < s0.pattern_to_host_node@.len()
            &&& a[i].1 < s0.host_node_used@.len()
            &&& s0.pattern_to_host_node@[a[i].0 as int] is None
            &&& !s0.host_node_used@[a[i].1 as int]
            &&& s.pattern_to_host_node@[a[i].0 as int] == Some(a[i].1)
            &&& s.host_node_used@[a[i].1 as int]
        }
    &&& forall|n: int|
        0 <= n < s0.pattern_to_host_node@.len() && !key_in(a, n) ==> #[trigger] s.pattern_to_host_node@[n]
            == s0.pattern_to_host_node@[n]
    &&& forall|x: int|
        0 <= x < s0.host_node_used@.len() && !host_in(a, x) ==> #[trigger] s.host_node_used@[x] == s0.host_node_used@[x]
    &&& nones(s.pattern_to_host_node@) <= nones(s0.pattern_to_host_node@)
}

/// Mapping a free node to a free host node keeps a partial injective map.
proof fn lemma_map_free(m: Seq<Option<usize>>, used: Seq<bool>, bound: nat, x: int, y: usize)
    requires
        partial_map_ok(m, used, bound),
        0 <= x < m.len(),
        m[x] is None,
        y < bound,
        !used[y as int],
    ensures
        partial_map_ok(m.update(x, Some(y)), used.update(y as int, true), bound),
{
    let m2 = m.update(x, Some(y));
    let u2 = used.update(y as int, true);
    assert forall|z: int| 0 <= z < bound && #[trigger] u2[z] implies image_has(m2, z as usize) by {
        if z == y {
            assert(m2[x] == Some(y));
        } else {
            assert(used[z]);
            let i = choose|i: int| 0 <= i < m.len() && m[i] == Some(z as usize);
            assert(m2[i] == Some(z as usize));
        }
    }
    assert forall|i: int, j: int|
        0 <= i < m2.len() && 0 <= j < m2.len() && i != j && #[trigger] m2[i] is Some && #[trigger] m2[j] is Some implies m2[i]
        != m2[j] by {
        if i == x {
            assert(m[j] is Some);
            assert(used[m[j]->0 as int]);
        } else if j == x {
            assert(m[i] is Some);
            assert(used[m[i]->0 as int]);
        } else {
            assert(m[i] is Some && m[j] is Some);
        }
    }
    assert forall|i: int| 0 <= i < m2.len() && #[trigger] m2[i] is Some implies m2[i]->0 < bound && u2[m2[i]->0 as int] by {
        if i != x {
            assert(m[i] is Some);
        }
    }
}

/// An edge whose ports are all mapped stays so when more nodes are mapped.
proof fn lemma_edges_stay_mapped<O: PartialEq, A: PartialEq>(
    p: &PreparedOpenHypergraph<O, A>,
    h: &PreparedOpenHypergraph<O, A>,
    s: &SearchState,
    s2: &SearchState,
    skip: int,
)
    requires
        p.wf(),
        s.pattern_to_host_node@.len() == p.nodes@.len(),
        s.pattern_to_host_edge@.len() == p.edges@.len(),
        mapped_edges_ok(p, h, s, skip),
        s2.pattern_to_host_edge@ == s.pattern_to_host_edge@,
        s2.pattern_to_host_node@.len() == s.pattern_to_host_node@.len(),
        forall|n: int|
            0 <= n < s.pattern_to_host_node@.len() && #[trigger] s.pattern_to_host_node@[n] is Some
                ==> s2.pattern_to_host_node@[n] == s.pattern_to_host_node@[n],
    ensures
        mapped_edges_ok(p, h, s2, skip),
{
    assert forall|e: int|
        0 <= e < s2.pattern_to_host_edge@.len() && #[trigger] s2.pattern_to_host_edge@[e] is Some && e != skip implies edge_mapped_ok(
        p,
        h,
        e,
        s2.pattern_to_host_edge@[e]->0 as int,
        s2.pattern_to_host_node@,
    ) by {
        let he = s.pattern_to_host_edge@[e]->0 as int;
        assert(edge_mapped_ok(p, h, e, he, s.pattern_to_host_node@));
        let pn = s.pattern_to_host_node@;
        assert(edge_ports_ok(p.edges@[e], p.nodes@.len()));
        assert forall|k: int| 0 <= k < p.edges@[e].sources@.len() implies s2.pattern_to_host_node@[p.edges@[e].sources@[k] as int]
            == Some(#[trigger] h.edges@[he].sources@[k]) by {
            let x = p.edges@[e].sources@[k] as int;
            assert(pn[x] == Some(h.edges@[he].sources@[k]));
            assert(0 <= x < pn.len());
            assert(pn[x] is Some);
        }
        assert forall|k: int| 0 <= k < p.edges@[e].targets@.len() implies s2.pattern_to_host_node@[p.edges@[e].targets@[k] as int]
            == Some(#[trigger] h.edges@[he].targets@[k]) by {
            let x = p.edges@[e].targets@[k] as int;
            assert(pn[x] == Some(h.edges@[he].targets@[k]));
            assert(0 <= x < pn.len());
            assert(pn[x] is Some);
        }
    }
}

/// Every match agreeing with the state maps a node consistently with the
/// mapped edges at it.
proof fn lemma_valid_ext_incidence<O: PartialEq, A: PartialEq>(
    p: &PreparedOpenHypergraph<O, A>,
    h: &PreparedOpenHypergraph<O, A>,
    s: &SearchState,
    nm: Seq<usize>,
    em: Seq<usize>,
    node: usize,
)
    requires
        p.wf(),
        maps_ok(p, h, s),
        valid_ext(p, h, s, nm, em),
        node < p.nodes@.len(),
    ensures
        incidence_consistent(p, h, s, node as int, nm[node as int]),
{
    let pn = node as int;
    assert forall|i: int|
        0 <= i < p.nodes@[pn].incident_edges@.len() && #[trigger] s.pattern_to_host_edge@[p.nodes@[pn].incident_edges@[i].edge as int] is Some
        implies host_port(
        h,
        s.pattern_to_host_edge@[p.nodes@[pn].incident_edges@[i].edge as int]->0 as int,
        p.nodes@[pn].incident_edges@[i].direction,
        p.nodes@[pn].incident_edges@[i].port as int,
    ) == nm[pn] by {
        let r = p.nodes@[pn].incident_edges@[i];
        assert(record_holds(p.edges@, r, node));
        let he = s.pattern_to_host_edge@[r.edge as int]->0;
        assert(em[r.edge as int] == he);
        assert(edge_maps_to(p, h, r.edge as int, em[r.edge as int] as int, nm));
        match r.direction {
            Direction::Source => {
                assert(h.edges@[he as int].sources@[r.port as int] == h.edges@[he as int].sources@[r.port as int]);
            },
            Direction::Target => {
                assert(h.edges@[he as int].targets@[r.port as int] == h.edges@[he as int].targets@[r.port as int]);
            },
        }
    }
}

/// Maps pattern node `pattern_node` to `host_node`, or checks that it is
/// mapped there already. Refuses a host node that is taken or does not pass
/// `node_static_ok`, and, once mapped, a node that a mapped edge contradicts.
/// Never refuses a pair that some match agreeing with the state has.
fn assign_single_node<O: PartialEq, A: PartialEq>(
    pattern: &PreparedOpenHypergraph<O, A>,
    host: &PreparedOpenHypergraph<O, A>,
    state: &mut SearchState,
    pattern_node: usize,
    host_node: usize,
    assigned_nodes: &mut Vec<(usize, usize)>,
    Ghost(skip): Ghost<int>,
) -> (r: bool)
    requires
        pattern.searchable(),
        host.searchable(),
        maps_ok(pattern, host, old(state)),
        mapped_nodes_ok(pattern, host, old(state)),
        mapped_edges_ok(pattern, host, old(state), skip),
        mapped_edges_shaped(pattern, host, old(state)),
        pattern_node < pattern.nodes@.len(),
        host_node < host.nodes@.len(),
    ensures
        maps_ok(pattern, host, final(state)),
        mapped_nodes_ok(pattern, host, final(state)),
        mapped_edges_ok(pattern, host, final(state), skip),
        mapped_edges_shaped(pattern, host, final(state)),
        final(state).pattern_to_host_edge@ == old(state).pattern_to_host_edge@,
        final(state).host_edge_used@ == old(state).host_edge_used@,
        final(assigned_nodes)@ == old(assigned_nodes)@ ==> {
            &&& final(state).pattern_to_host_node@ == old(state).pattern_to_host_node@
            &&& final(state).host_node_used@ == old(state).host_node_used@
        },
        final(assigned_nodes)@ == old(assigned_nodes)@ || {
            &&& final(assigned_nodes)@ == old(assigned_nodes)@.push((pattern_node, host_node))
            &&& old(state).pattern_to_host_node@[pattern_node as int] is None
            &&& !old(state).host_node_used@[host_node as int]
            &&& final(state).pattern_to_host_node@ == old(state).pattern_to_host_node@.update(
                pattern_node as int,
                Some(host_node),
            )
            &&& final(state).host_node_used@ == old(state).host_node_used@.update(host_node as int, true)
        },
        r ==> final(state).pattern_to_host_node@[pattern_node as int] == Some(host_node),
        forall|nm: Seq<usize>, em: Seq<usize>|
            #[trigger] valid_ext(pattern, host, old(state), nm, em) && nm[pattern_node as int] == host_node ==> r
                && extends(final(state), nm, em),
{
    if let Some(mapped) = state.pattern_to_host_node[pattern_node] {
        return mapped == host_node;
    }
    if state.host_node_used[host_node] || !node_candidate_static_ok(pattern, host, pattern_node, host_node) {
        proof {
            assert forall|nm: Seq<usize>, em: Seq<usize>|
                #[trigger] valid_ext(pattern, host, old(state), nm, em) && nm[pattern_node as int] == host_node implies false by {
                lemma_used_node_taken(pattern, host, old(state), nm, em, pattern_node as int);
                assert(nm[pattern_node as int] < host.nodes@.len());
            }
        }
        return false;
    }
    let ghost before = *state;
    proof {
        lemma_map_free(
            state.pattern_to_host_node@,
            state.host_node_used@,
            host.nodes@.len(),
            pattern_node as int,
            host_node,
        );
    }
    state.pattern_to_host_node.set(pattern_node, Some(host_node));
    state.host_node_used.set(host_node, true);
    assigned_nodes.push((pattern_node, host_node));
    proof {
        lemma_edges_stay_mapped(pattern, host, &before, state, skip);
        assert forall|n: int|
            0 <= n < state.pattern_to_host_node@.len() && #[trigger] state.pattern_to_host_node@[n] is Some implies node_static_ok(
            pattern,
            host,
            n,
            state.pattern_to_host_node@[n]->0 as int,
        ) by {
            if n != pattern_node {
                assert(before.pattern_to_host_node@[n] is Some);
            }
        }
        assert forall|nm: Seq<usize>, em: Seq<usize>|
            #[trigger] valid_ext(pattern, host, old(state), nm, em) && nm[pattern_node as int] == host_node implies extends(
            state,
            nm,
            em,
        ) by {
            assert forall|n: int|
                0 <= n < state.pattern_to_host_node@.len() && #[trigger] state.pattern_to_host_node@[n] is Some implies nm[n]
                == state.pattern_to_host_node@[n]->0 by {
                if n != pattern_node {
                    assert(before.pattern_to_host_node@[n] is Some);
                }
            }
            assert forall|e: int|
                0 <= e < state.pattern_to_host_edge@.len() && #[trigger] state.pattern_to_host_edge@[e] is Some implies em[e]
                == state.pattern_to_host_edge@[e]->0 by {
                assert(before.pattern_to_host_edge@[e] is Some);
            }
        }
    }
    assert(assigned_nodes@.len() == old(assigned_nodes)@.len() + 1);
    if !node_incidence_consistent(pattern, host, state, pattern_node, host_node) {
        proof {
            assert forall|nm: Seq<usize>, em: Seq<usize>|
                #[trigger] valid_ext(pattern, host, old(state), nm, em) && nm[pattern_node as int] == host_node implies false by {
                lemma_valid_ext_incidence(pattern, host, old(state), nm, em, pattern_node);
            }
        }
        return false;
    }
    true
}

/// A key of `a` is the pattern node of one of its pairs.
proof fn lemma_key_witness(a: Seq<(usize, usize)>, n: int) -> (i: int)
    requires
        key_in(a, n),
    ensures
        0 <= i < a.len(),
        a[i].0 == n,
    decreases a.len(),
{
    if a.last().0 == n {
        (a.len() - 1) as int
    } else {
        let i = lemma_key_witness(a.drop_last(), n);
        assert(a.drop_last()[i] == a[i]);
        i
    }
}

/// A host of `a` is the host node of one of its pairs.
proof fn lemma_host_witness(a: Seq<(usize, usize)>, x: int) -> (i: int)
    requires
        host_in(a, x),
    ensures
        0 <= i < a.len(),
        a[i].1 == x,
    decreases a.len(),
{
    if a.last().1 == x {
        (a.len() - 1) as int
    } else {
        let i = lemma_host_witness(a.drop_last(), x);
        assert(a.drop_last()[i] == a[i]);
        i
    }
}

/// One more call of `assign_single_node` keeps the record of what was added.
proof fn lemma_assigned_step(
    s0: &SearchState,
    s1: &SearchState,
    s2: &SearchState,
    a1: Seq<(usize, usize)>,
    a2: Seq<(usize, usize)>,
    x: usize,
    y: usize,
)
    requires
        assigned_ok(s0, s1, a1),
        s2.pattern_to_host_edge@ == s1.pattern_to_host_edge@,
        s2.host_edge_used@ == s1.host_edge_used@,
        x < s1.pattern_to_host_node@.len(),
        y < s1.host_node_used@.len(),
        a2 == a1 ==> s2.pattern_to_host_node@ == s1.pattern_to_host_node@ && s2.host_node_used@ == s1.host_node_used@,
        a2 == a1 || {
            &&& a2 == a1.push((x, y))
            &&& s1.pattern_to_host_node@[x as int] is None
            &&& !s1.host_node_used@[y as int]
            &&& s2.pattern_to_host_node@ == s1.pattern_to_host_node@.update(x as int, Some(y))
            &&& s2.host_node_used@ == s1.host_node_used@.update(y as int, true)
        },
    ensures
        assigned_ok(s0, s2, a2),
{
    if a2 != a1 {
        if key_in(a1, x as int) {
            let i = lemma_key_witness(a1, x as int);
            assert(s1.pattern_to_host_node@[a1[i].0 as int] is Some);
        }
        if host_in(a1, y as int) {
            let i = lemma_host_witness(a1, y as int);
            assert(s1.host_node_used@[a1[i].1 as int]);
        }
        assert(a2.drop_last() =~= a1);
        assert forall|i: int| 0 <= i < a2.len() implies {
            &&& (#[trigger] a2[i]).0 < s0.pattern_to_host_node@.len()
            &&& a2[i].1 < s0.host_node_used@.len()
            &&& s0.pattern_to_host_node@[a2[i].0 as int] is None
            &&& !s0.host_node_used@[a2[i].1 as int]
            &&& s2.pattern_to_host_node@[a2[i].0 as int] == Some(a2[i].1)
            &&& s2.host_node_used@[a2[i].1 as int]
        } by {
            if i < a1.len() {
                assert(a2[i] == a1[i]);
                assert(s1.pattern_to_host_node@[a1[i].0 as int] is Some);
                assert(s1.host_node_used@[a1[i].1 as int]);
            }
        }
        lemma_nones_map(s1.pattern_to_host_node@, x as int, y);
    }
}

/// Maps the nodes at the ports of `pattern_edge` onto those at the ports of
/// `host_edge`, sources first, port by port, recording each new pair in
/// `assigned_nodes`; stops at the first refusal. Never refuses when some
/// match agrees with the state, whose edge map already sends `pattern_edge`
/// to `host_edge`.
fn assign_nodes_for_edge<O: PartialEq, A: PartialEq>(
    pattern: &PreparedOpenHypergraph<O, A>,
    host: &PreparedOpenHypergraph<O, A>,
    state: &mut SearchState,
    pattern_edge: usize,
    host_edge: usize,
    assigned_nodes: &mut Vec<(usize, usize)>,
) -> (r: bool)
    requires
        pattern.searchable(),
        host.searchable(),
        maps_ok(pattern, host, old(state)),
        mapped_nodes_ok(pattern, host, old(state)),
        mapped_edges_ok(pattern, host, old(state), pattern_edge as int),
        mapped_edges_shaped(pattern, host, old(state)),
        pattern_edge < pattern.edges@.len(),
        host_edge < host.edges@.len(),
        old(state).pattern_to_host_edge@[pattern_edge as int] == Some(host_edge),
        pattern.edge_labels@[pattern_edge as int].eq_spec(&host.edge_labels@[host_edge as int]),
        old(assigned_nodes)@.len() == 0,
    ensures
        maps_ok(pattern, host, final(state)),
        mapped_nodes_ok(pattern, host, final(state)),
        mapped_edges_ok(pattern, host, final(state), pattern_edge as int),
        mapped_edges_shaped(pattern, host, final(state)),
        assigned_ok(old(state), final(state), final(assigned_nodes)@),
        r ==> edge_mapped_ok(pattern, host, pattern_edge as int, host_edge as int, final(state).pattern_to_host_node@),
        forall|nm: Seq<usize>, em: Seq<usize>|
            #[trigger] valid_ext(pattern, host, old(state), nm, em) ==> r && extends(final(state), nm, em),
{
    let ghost s0 = *state;
    let p_edge = pattern.edge(pattern_edge);
    let h_edge = host.edge(host_edge);
    assert(edge_shapes_agree(pattern, host, pattern_edge as int, host_edge as int));
    assert(edge_ports_ok(pattern.edges@[pattern_edge as int], pattern.nodes@.len()));
    assert(edge_ports_ok(host.edges@[host_edge as int], host.nodes@.len()));
    proof {
        assert(assigned_nodes@ =~= Seq::<(usize, usize)>::empty());
        assert forall|nm: Seq<usize>, em: Seq<usize>| #[trigger] valid_ext(pattern, host, &s0, nm, em) implies extends(
            state,
            nm,
            em,
        ) by {}
    }
    let mut k: usize = 0;
    while k < p_edge.sources.len()
        invariant
            pattern.searchable(),
            host.searchable(),
            pattern_edge < pattern.edges@.len(),
            host_edge < host.edges@.len(),
            *p_edge == pattern.edges@[pattern_edge as int],
            *h_edge == host.edges@[host_edge as int],
            edge_shapes_agree(pattern, host, pattern_edge as int, host_edge as int),
            edge_ports_ok(pattern.edges@[pattern_edge as int], pattern.nodes@.len()),
            edge_ports_ok(host.edges@[host_edge as int], host.nodes@.len()),
            s0 == *old(state),
            s0.pattern_to_host_edge@[pattern_edge as int] == Some(host_edge),
            maps_ok(pattern, host, state),
            mapped_nodes_ok(pattern, host, state),
            mapped_edges_ok(pattern, host, state, pattern_edge as int),
            mapped_edges_shaped(pattern, host, state),
            assigned_ok(&s0, state, assigned_nodes@),
            k <= p_edge.sources@.len(),
            forall|j: int|
                0 <= j < k ==> state.pattern_to_host_node@[p_edge.sources@[j] as int] == Some(
                    #[trigger] h_edge.sources@[j],
                ),
            forall|nm: Seq<usize>, em: Seq<usize>| #[trigger] valid_ext(pattern, host, &s0, nm, em) ==> extends(state, nm, em),
        decreases p_edge.sources@.len() - k,
    {
        let pattern_node = p_edge.sources[k];
        let host_node = h_edge.sources[k];
        let ghost before = *state;
        let ghost a_before = assigned_nodes@;
        proof {
            lemma_port_forced(pattern, host, &s0, pattern_edge as int, host_edge, k as int, Direction::Source);
        }
        let ok = assign_single_node(pattern, host, state, pattern_node, host_node, assigned_nodes, Ghost(pattern_edge as int));
        proof {
            lemma_assigned_step(&s0, &before, state, a_before, assigned_nodes@, pattern_node, host_node);
            assert forall|nm: Seq<usize>, em: Seq<usize>| #[trigger] valid_ext(pattern, host, &s0, nm, em) implies ok && extends(
                state,
                nm,
                em,
            ) by {
                assert(extends(&before, nm, em));
                assert(valid_ext(pattern, host, &before, nm, em));
                assert(em[pattern_edge as int] == host_edge);
            }
            assert forall|j: int| 0 <= j < k implies state.pattern_to_host_node@[p_edge.sources@[j] as int] == Some(
                #[trigger] h_edge.sources@[j],
            ) by {
                assert(before.pattern_to_host_node@[p_edge.sources@[j] as int] == Some(h_edge.sources@[j]));
            }
        }
        if !ok {
            return false;
        }
        k = k + 1;
    }
    let mut k: usize = 0;
    while k < p_edge.targets.len()
        invariant
            pattern.searchable(),
            host.searchable(),
            pattern_edge < pattern.edges@.len(),
            host_edge < host.edges@.len(),
            *p_edge == pattern.edges@[pattern_edge as int],
            *h_edge == host.edges@[host_edge as int],
            edge_shapes_agree(pattern, host, pattern_edge as int, host_edge as int),
            edge_ports_ok(pattern.edges@[pattern_edge as int], pattern.nodes@.len()),
            edge_ports_ok(host.edges@[host_edge as int], host.nodes@.len()),
            s0 == *old(state),
            s0.pattern_to_host_edge@[pattern_edge as int] == Some(host_edge),
            maps_ok(pattern, host, state),
            mapped_nodes_ok(pattern, host, state),
            mapped_edges_ok(pattern, host, state, pattern_edge as int),
            mapped_edges_shaped(pattern, host, state),
            assigned_ok(&s0, state, assigned_nodes@),
            k <= p_edge.targets@.len(),
            forall|j: int|
                0 <= j < p_edge.sources@.len() ==> state.pattern_to_host_node@[p_edge.sources@[j] as int] == Some(
                    #[trigger] h_edge.sources@[j],
                ),
            forall|j: int|
                0 <= j < k ==> state.pattern_to_host_node@[p_edge.targets@[j] as int] == Some(
                    #[trigger] h_edge.targets@[j],
                ),
            forall|nm: Seq<usize>, em: Seq<usize>| #[trigger] valid_ext(pattern, host, &s0, nm, em) ==> extends(state, nm, em),
        decreases p_edge.targets@.len() - k,
    {
        let pattern_node = p_edge.targets[k];
        let host_node = h_edge.targets[k];
        let ghost before = *state;
        let ghost a_before = assigned_nodes@;
        proof {
            lemma_port_forced(pattern, host, &s0, pattern_edge as int, host_edge, k as int, Direction::Target);
        }
        let ok = assign_single_node(pattern, host, state, pattern_node, host_node, assigned_nodes, Ghost(pattern_edge as int));
        proof {
            lemma_assigned_step(&s0, &before, state, a_before, assigned_nodes@, pattern_node, host_node);
            assert forall|nm: Seq<usize>, em: Seq<usize>| #[trigger] valid_ext(pattern, host, &s0, nm, em) implies ok && extends(
                state,
                nm,
                em,
            ) by {
                assert(extends(&before, nm, em));
                assert(valid_ext(pattern, host, &before, nm, em));
                assert(em[pattern_edge as int] == host_edge);
            }
            assert forall|j: int| 0 <= j < p_edge.sources@.len() implies state.pattern_to_host_node@[p_edge.sources@[j] as int] == Some(
                #[trigger] h_edge.sources@[j],
            ) by {
                assert(before.pattern_to_host_node@[p_edge.sources@[j] as int] == Some(h_edge.sources@[j]));
            }
            assert forall|j: int| 0 <= j < k implies state.pattern_to_host_node@[p_edge.targets@[j] as int] == Some(
                #[trigger] h_edge.targets@[j],
            ) by {
                assert(before.pattern_to_host_node@[p_edge.targets@[j] as int] == Some(h_edge.targets@[j]));
            }
        }
        if !ok {
            return false;
        }
        k = k + 1;
    }
    true
}

/// Strictly increasing.
spec fn increasing(s: Seq<usize>) -> bool {
    forall|i: int, j: int| 0 <= i < j < s.len() ==> s[i] < s[j]
}

/// The host edges that pattern edge `pattern_edge` may be mapped to now, in
/// increasing order: the free ones that pass `edge_candidate_ok`. Every host
/// edge that a match agreeing with the state uses for `pattern_edge` is
/// among them.
fn edge_candidates<O: PartialEq, A: PartialEq>(
    pattern: &PreparedOpenHypergraph<O, A>,
    host: &PreparedOpenHypergraph<O, A>,
    state: &SearchState,
    pattern_edge: usize,
) -> (r: Vec<usize>)
    requires
        pattern.searchable(),
        host.searchable(),
        state_ok(pattern, host, state),
        pattern_edge < pattern.edges@.len(),
        state.pattern_to_host_edge@[pattern_edge as int] is None,
    ensures
        increasing(r@),
        r@.len() <= host.edges@.len(),
        forall|i: int|
            0 <= i < r@.len() ==> {
                &&& #[trigger] r@[i] < host.edges@.len()
                &&& !state.host_edge_used@[r@[i] as int]
                &&& pattern.edge_labels@[pattern_edge as int].eq_spec(&host.edge_labels@[r@[i] as int])
                &&& edge_shapes_agree(pattern, host, pattern_edge as int, r@[i] as int)
            },
        forall|nm: Seq<usize>, em: Seq<usize>|
            #[trigger] valid_ext(pattern, host, state, nm, em) ==> r@.contains(em[pattern_edge as int]),
{
    let mut out: Vec<usize> = Vec::new();
    let mut host_edge: usize = 0;
    while host_edge < host.edge_count()
        invariant
            pattern.searchable(),
            host.searchable(),
            state_ok(pattern, host, state),
            pattern_edge < pattern.edges@.len(),
            state.pattern_to_host_edge@[pattern_edge as int] is None,
            host_edge <= host.edges@.len(),
            increasing(out@),
            out@.len() <= host_edge,
            forall|i: int| 0 <= i < out@.len() ==> #[trigger] out@[i] < host_edge,
            forall|i: int|
                0 <= i < out@.len() ==> {
                    &&& #[trigger] out@[i] < host.edges@.len()
                    &&& !state.host_edge_used@[out@[i] as int]
                    &&& pattern.edge_labels@[pattern_edge as int].eq_spec(&host.edge_labels@[out@[i] as int])
                    &&& edge_shapes_agree(pattern, host, pattern_edge as int, out@[i] as int)
                },
            forall|nm: Seq<usize>, em: Seq<usize>|
                #[trigger] valid_ext(pattern, host, state, nm, em) && em[pattern_edge as int] < host_edge ==> out@.contains(
                    em[pattern_edge as int],
                ),
        decreases host.edges@.len() - host_edge,
    {
        if state.host_edge_used[host_edge] {
            proof {
                assert forall|nm: Seq<usize>, em: Seq<usize>| #[trigger] valid_ext(pattern, host, state, nm, em) implies em[pattern_edge as int]
                    != host_edge by {
                    lemma_used_edge_taken(pattern, host, state, nm, em, pattern_edge as int);
                }
            }
        } else if edge_candidate_ok(pattern, host, state, pattern_edge, host_edge) {
            let ghost before = out@;
            out.push(host_edge);
            proof {
                assert forall|nm: Seq<usize>, em: Seq<usize>|
                    #[trigger] valid_ext(pattern, host, state, nm, em) && em[pattern_edge as int] < host_edge + 1 implies out@.contains(
                    em[pattern_edge as int],
                ) by {
                    if em[pattern_edge as int] < host_edge {
                        let k = choose|k: int| 0 <= k < before.len() && before[k] == em[pattern_edge as int];
                        assert(out@[k] == before[k]);
                    } else {
                        assert(out@[before.len() as int] == host_edge);
                    }
                }
            }
        }
        host_edge = host_edge + 1;
    }
    proof {
        assert forall|nm: Seq<usize>, em: Seq<usize>| #[trigger] valid_ext(pattern, host, state, nm, em) implies out@.contains(
            em[pattern_edge as int],
        ) by {
            assert(em[pattern_edge as int] < host.edges@.len());
        }
    }
    out
}

/// The host nodes that pattern node `pattern_node` may be mapped to now, in
/// increasing order: the free ones that pass `node_static_ok` and agree
/// with the mapped edges. Every host node that a match agreeing with the
/// state uses for `pattern_node` is among them.
fn node_candidates<O: PartialEq, A: PartialEq>(
    pattern: &PreparedOpenHypergraph<O, A>,
    host: &PreparedOpenHypergraph<O, A>,
    state: &SearchState,
    pattern_node: usize,
) -> (r: Vec<usize>)
    requires
        pattern.searchable(),
        host.searchable(),
        state_ok(pattern, host, state),
        pattern_node < pattern.nodes@.len(),
        state.pattern_to_host_node@[pattern_node as int] is None,
    ensures
        increasing(r@),
        r@.len() <= host.nodes@.len(),
        forall|i: int|
            0 <= i < r@.len() ==> {
                &&& #[trigger] r@[i] < host.nodes@.len()
                &&& !state.host_node_used@[r@[i] as int]
                &&& node_static_ok(pattern, host, pattern_node as int, r@[i] as int)
                &&& incidence_consistent(pattern, host, state, pattern_node as int, r@[i])
            },
        forall|nm: Seq<usize>, em: Seq<usize>|
            #[trigger] valid_ext(pattern, host, state, nm, em) ==> r@.contains(nm[pattern_node as int]),
{
    let mut out: Vec<usize> = Vec::new();
    let mut host_node: usize = 0;
    while host_node < host.node_count()
        invariant
            pattern.searchable(),
            host.searchable(),
            state_ok(pattern, host, state),
            pattern_node < pattern.nodes@.len(),
            state.pattern_to_host_node@[pattern_node as int] is None,
            host_node <= host.nodes@.len(),
            increasing(out@),
            out@.len() <= host_node,
            forall|i: int| 0 <= i < out@.len() ==> #[trigger] out@[i] < host_node,
            forall|i: int|
                0 <= i < out@.len() ==> {
                    &&& #[trigger] out@[i] < host.nodes@.len()
                    &&& !state.host_node_used@[out@[i] as int]
                    &&& node_static_ok(pattern, host, pattern_node as int, out@[i] as int)
                    &&& incidence_consistent(pattern, host, state, pattern_node as int, out@[i])
                },
            forall|nm: Seq<usize>, em: Seq<usize>|
                #[trigger] valid_ext(pattern, host, state, nm, em) && nm[pattern_node as int] < host_node ==> out@.contains(
                    nm[pattern_node as int],
                ),
        decreases host.nodes@.len() - host_node,
    {
        if state.host_node_used[host_node] {
            proof {
                assert forall|nm: Seq<usize>, em: Seq<usize>| #[trigger] valid_ext(pattern, host, state, nm, em) implies nm[pattern_node as int]
                    != host_node by {
                    lemma_used_node_taken(pattern, host, state, nm, em, pattern_node as int);
                }
            }
        } else if node_candidate_ok(pattern, host, state, pattern_node, host_node) {
            let ghost before = out@;
            out.push(host_node);
            proof {
                assert forall|nm: Seq<usize>, em: Seq<usize>|
                    #[trigger] valid_ext(pattern, host, state, nm, em) && nm[pattern_node as int] < host_node + 1 implies out@.contains(
                    nm[pattern_node as int],
                ) by {
                    if nm[pattern_node as int] < host_node {
                        let k = choose|k: int| 0 <= k < before.len() && before[k] == nm[pattern_node as int];
                        assert(out@[k] == before[k]);
                    } else {
                        assert(out@[before.len() as int] == host_node);
                    }
                }
            }
        } else {
            proof {
                assert forall|nm: Seq<usize>, em: Seq<usize>| #[trigger] valid_ext(pattern, host, state, nm, em) implies nm[pattern_node as int]
                    != host_node by {
                    if nm[pattern_node as int] == host_node {
                        lemma_valid_ext_incidence(pattern, host, state, nm, em, pattern_node);
                    }
                }
            }
        }
        host_node = host_node + 1;
    }
    proof {
        assert forall|nm: Seq<usize>, em: Seq<usize>| #[trigger] valid_ext(pattern, host, state, nm, em) implies out@.contains(
            nm[pattern_node as int],
        ) by {
            assert(nm[pattern_node as int] < host.nodes@.len());
        }
    }
    out
}

/// The unmapped pattern element with the fewest candidates, edges before
/// nodes.
fn choose_next<O: PartialEq, A: PartialEq>(
    pattern: &PreparedOpenHypergraph<O, A>,
    host: &PreparedOpenHypergraph<O, A>,
    state: &SearchState,
) -> (r: NextPatternElement)
    requires
        pattern.searchable(),
        host.searchable(),
        state_ok(pattern, host, state),
        exists|i: int| 0 <= i < state.pattern_to_host_edge@.len() && #[trigger] state.pattern_to_host_edge@[i] is None
            || exists|i: int| 0 <= i < state.pattern_to_host_node@.len() && #[trigger] state.pattern_to_host_node@[i] is None,
    ensures
        match r {
            NextPatternElement::Edge(e) => e < pattern.edges@.len() && state.pattern_to_host_edge@[e as int] is None,
            NextPatternElement::Node(n) => n < pattern.nodes@.len() && state.pattern_to_host_node@[n as int] is None,
        },
{
    let mut best_edge: Option<usize> = None;
    let mut best_edge_count: usize = usize::MAX;
    let mut pattern_edge: usize = 0;
    while pattern_edge < pattern.edge_count()
        invariant
            pattern.searchable(),
            host.searchable(),
            state_ok(pattern, host, state),
            pattern_edge <= pattern.edges@.len(),
            best_edge matches Some(e) ==> e < pattern.edges@.len() && state.pattern_to_host_edge@[e as int] is None,
            best_edge is None ==> best_edge_count == usize::MAX,
            best_edge is None ==> forall|e: int| 0 <= e < pattern_edge ==> #[trigger] state.pattern_to_host_edge@[e] is Some,
        decreases pattern.edges@.len() - pattern_edge,
    {
        if state.pattern_to_host_edge[pattern_edge].is_some() {
            pattern_edge = pattern_edge + 1;
            continue;
        }
        let count = edge_candidates(pattern, host, state, pattern_edge).len();
        if count < best_edge_count {
            best_edge_count = count;
            best_edge = Some(pattern_edge);
        }
        pattern_edge = pattern_edge + 1;
    }
    if let Some(edge) = best_edge {
        return NextPatternElement::Edge(edge);
    }
    let mut best_node: Option<usize> = None;
    let mut best_node_count: usize = usize::MAX;
    let mut pattern_node: usize = 0;
    while pattern_node < pattern.node_count()
        invariant
            pattern.searchable(),
            host.searchable(),
            state_ok(pattern, host, state),
            pattern_node <= pattern.nodes@.len(),
            best_node matches Some(n) ==> n < pattern.nodes@.len() && state.pattern_to_host_node@[n as int] is None,
            best_node is None ==> best_node_count == usize::MAX,
            best_node is None ==> forall|n: int| 0 <= n < pattern_node ==> #[trigger] state.pattern_to_host_node@[n] is Some,
        decreases pattern.nodes@.len() - pattern_node,
    {
        if state.pattern_to_host_node[pattern_node].is_some() {
            pattern_node = pattern_node + 1;
            continue;
        }
        let count = node_candidates(pattern, host, state, pattern_node).len();
        if count < best_node_count {
            best_node_count = count;
            best_node = Some(pattern_node);
        }
        pattern_node = pattern_node + 1;
    }
    NextPatternElement::Node(best_node.expect("incomplete search state must have unmapped node or edge"))
}

/// The four parts of two search states are equal.
spec fn same_state(a: &SearchState, b: &SearchState) -> bool {
    &&& a.pattern_to_host_node@ == b.pattern_to_host_node@
    &&& a.host_node_used@ == b.host_node_used@
    &&& a.pattern_to_host_edge@ == b.pattern_to_host_edge@
    &&& a.host_edge_used@ == b.host_edge_used@
}

/// Number of unmapped pattern elements: what each step of the search
/// reduces.
spec fn state_measure(s: &SearchState) -> nat {
    nones(s.pattern_to_host_node@) + nones(s.pattern_to_host_edge@)
}

/// What a search from state `s` adds to `before`, giving `after`: exactly
/// the matches that agree with `s`, each once, appended.
spec fn search_result<O: PartialEq, A: PartialEq>(
    p: &PreparedOpenHypergraph<O, A>,
    h: &PreparedOpenHypergraph<O, A>,
    s: &SearchState,
    before: Seq<StrictOpenHypergraphMatch>,
    after: Seq<StrictOpenHypergraphMatch>,
) -> bool {
    &&& before.len() <= after.len()
    &&& after.subrange(0, before.len() as int) == before
    &&& forall|k: int|
        before.len() <= k < after.len() ==> valid_ext(p, h, s, (#[trigger] after[k]).node_map@, after[k].edge_map@)
    &&& forall|nm: Seq<usize>, em: Seq<usize>| #[trigger] valid_ext(p, h, s, nm, em) ==> found_from(after, before.len() as int, nm, em)
    &&& distinct_from(after, before.len() as int)
}

/// The entries of a map all of whose positions are mapped.
spec fn unwrapped(m: Seq<Option<usize>>) -> Seq<usize> {
    Seq::new(m.len(), |i: int| m[i]->0)
}

/// The entries of a vector all of whose entries are `Some`.
fn unwrap_all(v: &Vec<Option<usize>>) -> (r: Vec<usize>)
    requires
        forall|i: int| 0 <= i < v@.len() ==> #[trigger] v@[i] is Some,
    ensures
        r@ == unwrapped(v@),
{
    let mut out: Vec<usize> = Vec::new();
    let mut i: usize = 0;
    while i < v.len()
        invariant
            forall|i: int| 0 <= i < v@.len() ==> #[trigger] v@[i] is Some,
            i <= v@.len(),
            out@.len() == i,
            forall|k: int| 0 <= k < i ==> Some(#[trigger] out@[k]) == v@[k],
        decreases v@.len() - i,
    {
        out.push(v[i].unwrap());
        i = i + 1;
    }
    assert(out@ =~= unwrapped(v@));
    out
}

/// A state in which everything is mapped is one match, the only one that
/// agrees with it.
proof fn lemma_complete_match<O: PartialEq, A: PartialEq>(
    p: &PreparedOpenHypergraph<O, A>,
    h: &PreparedOpenHypergraph<O, A>,
    s: &SearchState,
)
    requires
        p.wf(),
        state_ok(p, h, s),
        forall|i: int| 0 <= i < s.pattern_to_host_node@.len() ==> #[trigger] s.pattern_to_host_node@[i] is Some,
        forall|i: int| 0 <= i < s.pattern_to_host_edge@.len() ==> #[trigger] s.pattern_to_host_edge@[i] is Some,
    ensures
        valid_ext(p, h, s, unwrapped(s.pattern_to_host_node@), unwrapped(s.pattern_to_host_edge@)),
        forall|nm: Seq<usize>, em: Seq<usize>|
            #[trigger] valid_ext(p, h, s, nm, em) ==> nm == unwrapped(s.pattern_to_host_node@) && em == unwrapped(
                s.pattern_to_host_edge@,
            ),
{
    let pn = s.pattern_to_host_node@;
    let pe = s.pattern_to_host_edge@;
    let nm0 = unwrapped(pn);
    let em0 = unwrapped(pe);
    assert forall|n: int| 0 <= n < nm0.len() implies #[trigger] nm0[n] < h.nodes@.len() && node_static_ok(p, h, n, nm0[n] as int) by {
        assert(pn[n] is Some);
    }
    assert forall|e: int| 0 <= e < em0.len() implies #[trigger] em0[e] < h.edges@.len() && edge_maps_to(
        p,
        h,
        e,
        em0[e] as int,
        nm0,
    ) by {
        assert(pe[e] is Some);
        let he = em0[e] as int;
        assert(edge_mapped_ok(p, h, e, he, pn));
        assert(edge_ports_ok(p.edges@[e], p.nodes@.len()));
        assert forall|k: int| 0 <= k < p.edges@[e].sources@.len() implies nm0[p.edges@[e].sources@[k] as int]
            == #[trigger] h.edges@[he].sources@[k] by {
            assert(pn[p.edges@[e].sources@[k] as int] == Some(h.edges@[he].sources@[k]));
        }
        assert forall|k: int| 0 <= k < p.edges@[e].targets@.len() implies nm0[p.edges@[e].targets@[k] as int]
            == #[trigger] h.edges@[he].targets@[k] by {
            assert(pn[p.edges@[e].targets@[k] as int] == Some(h.edges@[he].targets@[k]));
        }
    }
    assert forall|i: int, j: int| 0 <= i < nm0.len() && 0 <= j < nm0.len() && i != j implies nm0[i] != nm0[j] by {
        assert(pn[i] is Some && pn[j] is Some);
    }
    assert forall|i: int, j: int| 0 <= i < em0.len() && 0 <= j < em0.len() && i != j implies em0[i] != em0[j] by {
        assert(pe[i] is Some && pe[j] is Some);
    }
    assert forall|nm: Seq<usize>, em: Seq<usize>| #[trigger] valid_ext(p, h, s, nm, em) implies nm == nm0 && em == em0 by {
        assert forall|n: int| 0 <= n < nm.len() implies nm[n] == nm0[n] by {
            assert(pn[n] is Some);
        }
        assert forall|e: int| 0 <= e < em.len() implies em[e] == em0[e] by {
            assert(pe[e] is Some);
        }
        assert(nm =~= nm0);
        assert(em =~= em0);
    }
}

/// A match found from position `lo` stays found when more matches are
/// appended.
proof fn lemma_found_kept(
    ms1: Seq<StrictOpenHypergraphMatch>,
    ms2: Seq<StrictOpenHypergraphMatch>,
    lo: int,
    nm: Seq<usize>,
    em: Seq<usize>,
)
    requires
        0 <= lo,
        found_from(ms1, lo, nm, em),
        ms1.len() <= ms2.len(),
        ms2.subrange(0, ms1.len() as int) == ms1,
    ensures
        found_from(ms2, lo, nm, em),
{
    let k = choose|k: int| lo <= k < ms1.len() && #[trigger] match_at(ms1, k, nm, em);
    assert(ms2.subrange(0, ms1.len() as int)[k] == ms2[k]);
    assert(match_at(ms2, k, nm, em));
}

/// A match found from position `lo2` is found from any earlier position.
proof fn lemma_found_earlier(ms: Seq<StrictOpenHypergraphMatch>, lo: int, lo2: int, nm: Seq<usize>, em: Seq<usize>)
    requires
        found_from(ms, lo2, nm, em),
        lo <= lo2,
    ensures
        found_from(ms, lo, nm, em),
{
    let k = choose|k: int| lo2 <= k < ms.len() && #[trigger] match_at(ms, k, nm, em);
    assert(match_at(ms, k, nm, em));
}

/// Takes back the node pairs that `assign_nodes_for_edge` added, last first.
fn undo_assignments(state: &mut SearchState, assigned_nodes: &Vec<(usize, usize)>, Ghost(s1): Ghost<SearchState>)
    requires
        assigned_ok(&s1, old(state), assigned_nodes@),
    ensures
        final(state).pattern_to_host_node@ == s1.pattern_to_host_node@,
        final(state).host_node_used@ == s1.host_node_used@,
        final(state).pattern_to_host_edge@ == old(state).pattern_to_host_edge@,
        final(state).host_edge_used@ == old(state).host_edge_used@,
{
    let ghost a = assigned_nodes@;
    let mut j: usize = assigned_nodes.len();
    proof {
        assert(a.subrange(0, j as int) =~= a);
    }
    while j > 0
        invariant
            a == assigned_nodes@,
            j <= a.len(),
            state.pattern_to_host_node@.len() == s1.pattern_to_host_node@.len(),
            state.host_node_used@.len() == s1.host_node_used@.len(),
            state.pattern_to_host_edge@ == old(state).pattern_to_host_edge@,
            state.host_edge_used@ == old(state).host_edge_used@,
            forall|i: int|
                0 <= i < a.len() ==> {
                    &&& (#[trigger] a[i]).0 < s1.pattern_to_host_node@.len()
                    &&& a[i].1 < s1.host_node_used@.len()
                    &&& s1.pattern_to_host_node@[a[i].0 as int] is None
                    &&& !s1.host_node_used@[a[i].1 as int]
                },
            forall|n: int|
                0 <= n < s1.pattern_to_host_node@.len() && !key_in(a.subrange(0, j as int), n)
                    ==> #[trigger] state.pattern_to_host_node@[n] == s1.pattern_to_host_node@[n],
            forall|x: int|
                0 <= x < s1.host_node_used@.len() && !host_in(a.subrange(0, j as int), x) ==> #[trigger] state.host_node_used@[x]
                    == s1.host_node_used@[x],
        decreases j,
    {
        j = j - 1;
        let (pattern_node, host_node) = assigned_nodes[j];
        assert(a[j as int] == (pattern_node, host_node));
        state.pattern_to_host_node.set(pattern_node, None);
        state.host_node_used.set(host_node, false);
        proof {
            assert(a.subrange(0, j + 1).drop_last() =~= a.subrange(0, j as int));
        }
    }
    proof {
        assert(state.pattern_to_host_node@ =~= s1.pattern_to_host_node@);
        assert(state.host_node_used@ =~= s1.host_node_used@);
    }
}

/// Backtracking search from `state`: appends to `matches` every match that
/// agrees with the state, each once, and leaves the state as it found it.
fn search<O: PartialEq, A: PartialEq>(
    pattern: &PreparedOpenHypergraph<O, A>,
    host: &PreparedOpenHypergraph<O, A>,
    state: &mut SearchState,
    matches: &mut Vec<StrictOpenHypergraphMatch>,
)
    requires
        pattern.searchable(),
        host.searchable(),
        state_ok(pattern, host, old(state)),
    ensures
        same_state(final(state), old(state)),
        search_result(pattern, host, old(state), old(matches)@, final(matches)@),
    decreases state_measure(old(state)), 1nat,
{
    let nodes_done = all_some(&state.pattern_to_host_node);
    let edges_done = all_some(&state.pattern_to_host_edge);
    if edges_done && nodes_done {
        let node_map = unwrap_all(&state.pattern_to_host_node);
        let edge_map = unwrap_all(&state.pattern_to_host_edge);
        let ghost before = matches@;
        matches.push(StrictOpenHypergraphMatch { node_map, edge_map });
        proof {
            lemma_complete_match(pattern, host, state);
            assert(matches@.subrange(0, before.len() as int) =~= before);
            assert forall|nm: Seq<usize>, em: Seq<usize>| #[trigger] valid_ext(pattern, host, state, nm, em) implies found_from(
                matches@,
                before.len() as int,
                nm,
                em,
            ) by {
                assert(match_at(matches@, before.len() as int, nm, em));
            }
        }
        return;
    }
    match choose_next(pattern, host, state) {
        NextPatternElement::Edge(pattern_edge) => search_edge(pattern, host, state, matches, pattern_edge),
        NextPatternElement::Node(pattern_node) => search_node(pattern, host, state, matches, pattern_node),
    }
}

/// The search step that maps pattern edge `pattern_edge` to each of its
/// candidates in turn, with the nodes at its ports.
fn search_edge<O: PartialEq, A: PartialEq>(
    pattern: &PreparedOpenHypergraph<O, A>,
    host: &PreparedOpenHypergraph<O, A>,
    state: &mut SearchState,
    matches: &mut Vec<StrictOpenHypergraphMatch>,
    pattern_edge: usize,
)
    requires
        pattern.searchable(),
        host.searchable(),
        state_ok(pattern, host, old(state)),
        pattern_edge < pattern.edges@.len(),
        old(state).pattern_to_host_edge@[pattern_edge as int] is None,
    ensures
        same_state(final(state), old(state)),
        search_result(pattern, host, old(state), old(matches)@, final(matches)@),
    decreases state_measure(old(state)), 0nat,
{
    let ghost s0 = *state;
    let ghost m0 = matches@;
    let candidates = edge_candidates(pattern, host, state, pattern_edge);
    proof {
        assert(matches@.subrange(0, m0.len() as int) =~= m0);
    }
    let mut i: usize = 0;
    while i < candidates.len()
        invariant
            pattern.searchable(),
            host.searchable(),
            s0 == *old(state),
            m0 == old(matches)@,
            state_ok(pattern, host, &s0),
            same_state(state, &s0),
            pattern_edge < pattern.edges@.len(),
            s0.pattern_to_host_edge@[pattern_edge as int] is None,
            increasing(candidates@),
            forall|k: int|
                0 <= k < candidates@.len() ==> {
                    &&& #[trigger] candidates@[k] < host.edges@.len()
                    &&& !s0.host_edge_used@[candidates@[k] as int]
                    &&& pattern.edge_labels@[pattern_edge as int].eq_spec(&host.edge_labels@[candidates@[k] as int])
                    &&& edge_shapes_agree(pattern, host, pattern_edge as int, candidates@[k] as int)
                },
            forall|nm: Seq<usize>, em: Seq<usize>|
                #[trigger] valid_ext(pattern, host, &s0, nm, em) ==> candidates@.contains(em[pattern_edge as int]),
            i <= candidates@.len(),
            m0.len() <= matches@.len(),
            matches@.subrange(0, m0.len() as int) == m0,
            forall|k: int|
                m0.len() <= k < matches@.len() ==> valid_ext(pattern, host, &s0, (#[trigger] matches@[k]).node_map@, matches@[k].edge_map@)
                    && candidates@.subrange(0, i as int).contains(matches@[k].edge_map@[pattern_edge as int]),
            forall|nm: Seq<usize>, em: Seq<usize>|
                #[trigger] valid_ext(pattern, host, &s0, nm, em) && candidates@.subrange(0, i as int).contains(em[pattern_edge as int])
                    ==> found_from(matches@, m0.len() as int, nm, em),
            distinct_from(matches@, m0.len() as int),
        decreases candidates@.len() - i,
    {
        let host_edge = candidates[i];
        let ghost m1 = matches@;
        let mut assigned_nodes: Vec<(usize, usize)> = Vec::new();
        proof {
            lemma_map_free(
                s0.pattern_to_host_edge@,
                s0.host_edge_used@,
                host.edges@.len(),
                pattern_edge as int,
                host_edge,
            );
            lemma_nones_map(s0.pattern_to_host_edge@, pattern_edge as int, host_edge);
        }
        state.pattern_to_host_edge.set(pattern_edge, Some(host_edge));
        state.host_edge_used.set(host_edge, true);
        let ghost s1 = *state;
        proof {
            assert(maps_ok(pattern, host, &s1));
            assert(mapped_nodes_ok(pattern, host, &s1));
            assert forall|e: int|
                0 <= e < s1.pattern_to_host_edge@.len() && #[trigger] s1.pattern_to_host_edge@[e] is Some && e != pattern_edge
                implies edge_mapped_ok(pattern, host, e, s1.pattern_to_host_edge@[e]->0 as int, s1.pattern_to_host_node@) by {
                assert(s0.pattern_to_host_edge@[e] is Some);
            }
            assert forall|e: int|
                0 <= e < s1.pattern_to_host_edge@.len() && #[trigger] s1.pattern_to_host_edge@[e] is Some implies edge_shapes_agree(
                pattern,
                host,
                e,
                s1.pattern_to_host_edge@[e]->0 as int,
            ) by {
                if e != pattern_edge {
                    assert(s0.pattern_to_host_edge@[e] is Some);
                }
            }
        }
        let ok = assign_nodes_for_edge(pattern, host, state, pattern_edge, host_edge, &mut assigned_nodes);
        let ghost s2 = *state;
        proof {
            // a match agreeing with s0 that sends the edge to host_edge agrees with s1, and so with s2
            assert forall|nm: Seq<usize>, em: Seq<usize>|
                #[trigger] valid_ext(pattern, host, &s0, nm, em) && em[pattern_edge as int] == host_edge implies valid_ext(
                pattern,
                host,
                &s1,
                nm,
                em,
            ) by {
                assert forall|e: int|
                    0 <= e < s1.pattern_to_host_edge@.len() && #[trigger] s1.pattern_to_host_edge@[e] is Some implies em[e]
                    == s1.pattern_to_host_edge@[e]->0 by {
                    if e != pattern_edge {
                        assert(s0.pattern_to_host_edge@[e] is Some);
                    }
                }
            }
            // a match agreeing with s2 agrees with s0
            assert forall|nm: Seq<usize>, em: Seq<usize>| #[trigger] valid_ext(pattern, host, &s2, nm, em) implies valid_ext(
                pattern,
                host,
                &s0,
                nm,
                em,
            ) && em[pattern_edge as int] == host_edge by {
                assert forall|n: int|
                    0 <= n < s0.pattern_to_host_node@.len() && #[trigger] s0.pattern_to_host_node@[n] is Some implies nm[n]
                    == s0.pattern_to_host_node@[n]->0 by {
                    if key_in(assigned_nodes@, n) {
                        let w = lemma_key_witness(assigned_nodes@, n);
                        assert(s1.pattern_to_host_node@[assigned_nodes@[w].0 as int] is None);
                    }
                    assert(s2.pattern_to_host_node@[n] is Some);
                }
                assert forall|e: int|
                    0 <= e < s0.pattern_to_host_edge@.len() && #[trigger] s0.pattern_to_host_edge@[e] is Some implies em[e]
                    == s0.pattern_to_host_edge@[e]->0 by {
                    assert(s2.pattern_to_host_edge@[e] is Some);
                }
                assert(s2.pattern_to_host_edge@[pattern_edge as int] is Some);
            }
        }
        if ok {
            proof {
                assert(state_measure(&s2) < state_measure(&s0));
            }
            search(pattern, host, state, matches);
        }
        undo_assignments(state, &assigned_nodes, Ghost(s1));
        state.pattern_to_host_edge.set(pattern_edge, None);
        state.host_edge_used.set(host_edge, false);
        proof {
            assert(state.pattern_to_host_edge@ =~= s0.pattern_to_host_edge@);
            assert(state.host_edge_used@ =~= s0.host_edge_used@);
            let m2 = matches@;
            if ok {
                assert(m2.subrange(0, m1.len() as int) == m1);
            } else {
                assert(m2 =~= m1);
                assert(m2.subrange(0, m1.len() as int) =~= m1);
                assert forall|nm: Seq<usize>, em: Seq<usize>|
                    #[trigger] valid_ext(pattern, host, &s0, nm, em) implies em[pattern_edge as int] != host_edge by {
                    if em[pattern_edge as int] == host_edge {
                        assert(valid_ext(pattern, host, &s1, nm, em));
                    }
                }
            }
            assert(m2.subrange(0, m0.len() as int) =~= m1.subrange(0, m0.len() as int));
            assert(candidates@.subrange(0, i + 1) =~= candidates@.subrange(0, i as int).push(host_edge));
            assert forall|k: int| m0.len() <= k < m2.len() implies valid_ext(
                pattern,
                host,
                &s0,
                (#[trigger] m2[k]).node_map@,
                m2[k].edge_map@,
            ) && candidates@.subrange(0, i + 1).contains(m2[k].edge_map@[pattern_edge as int]) by {
                if k < m1.len() {
                    assert(m2[k] == m1.subrange(0, m1.len() as int)[k]);
                    assert(m2.subrange(0, m1.len() as int)[k] == m2[k]);
                    let c = choose|c: int| 0 <= c < i && #[trigger] candidates@.subrange(0, i as int)[c] == m1[k].edge_map@[pattern_edge as int];
                    assert(candidates@.subrange(0, i + 1)[c] == candidates@.subrange(0, i as int)[c]);
                } else {
                    assert(valid_ext(pattern, host, &s2, m2[k].node_map@, m2[k].edge_map@));
                    assert(candidates@.subrange(0, i + 1)[i as int] == host_edge);
                }
            }
            assert forall|nm: Seq<usize>, em: Seq<usize>|
                #[trigger] valid_ext(pattern, host, &s0, nm, em) && candidates@.subrange(0, i + 1).contains(em[pattern_edge as int])
                implies found_from(m2, m0.len() as int, nm, em) by {
                let c = choose|c: int| 0 <= c < i + 1 && #[trigger] candidates@.subrange(0, i + 1)[c] == em[pattern_edge as int];
                if c < i {
                    assert(candidates@.subrange(0, i as int)[c] == em[pattern_edge as int]);
                    assert(found_from(m1, m0.len() as int, nm, em));
                    lemma_found_kept(m1, m2, m0.len() as int, nm, em);
                } else {
                    assert(em[pattern_edge as int] == host_edge);
                    assert(valid_ext(pattern, host, &s1, nm, em));
                    assert(valid_ext(pattern, host, &s2, nm, em));
                    assert(found_from(m2, m1.len() as int, nm, em));
                    lemma_found_earlier(m2, m0.len() as int, m1.len() as int, nm, em);
                }
            }
            assert forall|a: int, b: int|
                m0.len() <= a < b < m2.len() implies !(#[trigger] m2[a].node_map@ == #[trigger] m2[b].node_map@ && m2[a].edge_map@
                == m2[b].edge_map@) by {
                if b < m1.len() {
                    assert(m2[a] == m2.subrange(0, m1.len() as int)[a]);
                    assert(m2[b] == m2.subrange(0, m1.len() as int)[b]);
                } else if a >= m1.len() {
                } else {
                    assert(m2[a] == m2.subrange(0, m1.len() as int)[a]);
                    let c = choose|c: int| 0 <= c < i && #[trigger] candidates@.subrange(0, i as int)[c] == m1[a].edge_map@[pattern_edge as int];
                    assert(valid_ext(pattern, host, &s2, m2[b].node_map@, m2[b].edge_map@));
                    assert(candidates@[c] < candidates@[i as int]);
                }
            }
        }
        i = i + 1;
    }
    proof {
        assert(candidates@.subrange(0, candidates@.len() as int) =~= candidates@);
    }
}

/// The search step that maps pattern node `pattern_node` to each of its
/// candidates in turn.
fn search_node<O: PartialEq, A: PartialEq>(
    pattern: &PreparedOpenHypergraph<O, A>,
    host: &PreparedOpenHypergraph<O, A>,
    state: &mut SearchState,
    matches: &mut Vec<StrictOpenHypergraphMatch>,
    pattern_node: usize,
)
    requires
        pattern.searchable(),
        host.searchable(),
        state_ok(pattern, host, old(state)),
        pattern_node < pattern.nodes@.len(),
        old(state).pattern_to_host_node@[pattern_node as int] is None,
    ensures
        same_state(final(state), old(state)),
        search_result(pattern, host, old(state), old(matches)@, final(matches)@),
    decreases state_measure(old(state)), 0nat,
{
    let ghost s0 = *state;
    let ghost m0 = matches@;
    let candidates = node_candidates(pattern, host, state, pattern_node);
    proof {
        assert(matches@.subrange(0, m0.len() as int) =~= m0);
    }
    let mut i: usize = 0;
    while i < candidates.len()
        invariant
            pattern.searchable(),
            host.searchable(),
            s0 == *old(state),
            m0 == old(matches)@,
            state_ok(pattern, host, &s0),
            same_state(state, &s0),
            pattern_node < pattern.nodes@.len(),
            s0.pattern_to_host_node@[pattern_node as int] is None,
            increasing(candidates@),
            forall|k: int|
                0 <= k < candidates@.len() ==> {
                    &&& #[trigger] candidates@[k] < host.nodes@.len()
                    &&& !s0.host_node_used@[candidates@[k] as int]
                    &&& node_static_ok(pattern, host, pattern_node as int, candidates@[k] as int)
                    &&& incidence_consistent(pattern, host, &s0, pattern_node as int, candidates@[k])
                },
            forall|nm: Seq<usize>, em: Seq<usize>|
                #[trigger] valid_ext(pattern, host, &s0, nm, em) ==> candidates@.contains(nm[pattern_node as int]),
            i <= candidates@.len(),
            m0.len() <= matches@.len(),
            matches@.subrange(0, m0.len() as int) == m0,
            forall|k: int|
                m0.len() <= k < matches@.len() ==> valid_ext(pattern, host, &s0, (#[trigger] matches@[k]).node_map@, matches@[k].edge_map@)
                    && candidates@.subrange(0, i as int).contains(matches@[k].node_map@[pattern_node as int]),
            forall|nm: Seq<usize>, em: Seq<usize>|
                #[trigger] valid_ext(pattern, host, &s0, nm, em) && candidates@.subrange(0, i as int).contains(nm[pattern_node as int])
                    ==> found_from(matches@, m0.len() as int, nm, em),
            distinct_from(matches@, m0.len() as int),
        decreases candidates@.len() - i,
    {
        let host_node = candidates[i];
        let ghost m1 = matches@;
        proof {
            lemma_map_free(
                s0.pattern_to_host_node@,
                s0.host_node_used@,
                host.nodes@.len(),
                pattern_node as int,
                host_node,
            );
            lemma_nones_map(s0.pattern_to_host_node@, pattern_node as int, host_node);
        }
        state.pattern_to_host_node.set(pattern_node, Some(host_node));
        state.host_node_used.set(host_node, true);
        let ghost s1 = *state;
        proof {
            assert(maps_ok(pattern, host, &s1));
            assert forall|n: int|
                0 <= n < s1.pattern_to_host_node@.len() && #[trigger] s1.pattern_to_host_node@[n] is Some implies node_static_ok(
                pattern,
                host,
                n,
                s1.pattern_to_host_node@[n]->0 as int,
            ) by {
                if n != pattern_node {
                    assert(s0.pattern_to_host_node@[n] is Some);
                }
            }
            lemma_edges_stay_mapped(pattern, host, &s0, &s1, -1);
            assert(mapped_edges_shaped(pattern, host, &s1));
            assert(state_measure(&s1) < state_measure(&s0));
            assert forall|nm: Seq<usize>, em: Seq<usize>|
                #[trigger] valid_ext(pattern, host, &s0, nm, em) && nm[pattern_node as int] == host_node implies valid_ext(
                pattern,
                host,
                &s1,
                nm,
                em,
            ) by {
                assert forall|n: int|
                    0 <= n < s1.pattern_to_host_node@.len() && #[trigger] s1.pattern_to_host_node@[n] is Some implies nm[n]
                    == s1.pattern_to_host_node@[n]->0 by {
                    if n != pattern_node {
                        assert(s0.pattern_to_host_node@[n] is Some);
                    }
                }
            }
            assert forall|nm: Seq<usize>, em: Seq<usize>| #[trigger] valid_ext(pattern, host, &s1, nm, em) implies valid_ext(
                pattern,
                host,
                &s0,
                nm,
                em,
            ) && nm[pattern_node as int] == host_node by {
                assert forall|n: int|
                    0 <= n < s0.pattern_to_host_node@.len() && #[trigger] s0.pattern_to_host_node@[n] is Some implies nm[n]
                    == s0.pattern_to_host_node@[n]->0 by {
                    assert(s1.pattern_to_host_node@[n] is Some);
                }
                assert(s1.pattern_to_host_node@[pattern_node as int] is Some);
            }
        }
        search(pattern, host, state, matches);
        state.pattern_to_host_node.set(pattern_node, None);
        state.host_node_used.set(host_node, false);
        proof {
            assert(state.pattern_to_host_node@ =~= s0.pattern_to_host_node@);
            assert(state.host_node_used@ =~= s0.host_node_used@);
            let m2 = matches@;
            assert(m2.subrange(0, m1.len() as int) == m1);
            assert(m2.subrange(0, m0.len() as int) =~= m1.subrange(0, m0.len() as int));
            assert(candidates@.subrange(0, i + 1) =~= candidates@.subrange(0, i as int).push(host_node));
            assert forall|k: int| m0.len() <= k < m2.len() implies valid_ext(
                pattern,
                host,
                &s0,
                (#[trigger] m2[k]).node_map@,
                m2[k].edge_map@,
            ) && candidates@.subrange(0, i + 1).contains(m2[k].node_map@[pattern_node as int]) by {
                if k < m1.len() {
                    assert(m2[k] == m2.subrange(0, m1.len() as int)[k]);
                    let c = choose|c: int| 0 <= c < i && #[trigger] candidates@.subrange(0, i as int)[c] == m1[k].node_map@[pattern_node as int];
                    assert(candidates@.subrange(0, i + 1)[c] == candidates@.subrange(0, i as int)[c]);
                } else {
                    assert(valid_ext(pattern, host, &s1, m2[k].node_map@, m2[k].edge_map@));
                    assert(candidates@.subrange(0, i + 1)[i as int] == host_node);
                }
            }
            assert forall|nm: Seq<usize>, em: Seq<usize>|
                #[trigger] valid_ext(pattern, host, &s0, nm, em) && candidates@.subrange(0, i + 1).contains(nm[pattern_node as int])
                implies found_from(m2, m0.len() as int, nm, em) by {
                let c = choose|c: int| 0 <= c < i + 1 && #[trigger] candidates@.subrange(0, i + 1)[c] == nm[pattern_node as int];
                if c < i {
                    assert(candidates@.subrange(0, i as int)[c] == nm[pattern_node as int]);
                    assert(found_from(m1, m0.len() as int, nm, em));
                    lemma_found_kept(m1, m2, m0.len() as int, nm, em);
                } else {
                    assert(valid_ext(pattern, host, &s1, nm, em));
                    assert(found_from(m2, m1.len() as int, nm, em));
                    lemma_found_earlier(m2, m0.len() as int, m1.len() as int, nm, em);
                }
            }
            assert forall|a: int, b: int|
                m0.len() <= a < b < m2.len() implies !(#[trigger] m2[a].node_map@ == #[trigger] m2[b].node_map@ && m2[a].edge_map@
                == m2[b].edge_map@) by {
                if b < m1.len() {
                    assert(m2[a] == m2.subrange(0, m1.len() as int)[a]);
                    assert(m2[b] == m2.subrange(0, m1.len() as int)[b]);
                } else if a >= m1.len() {
                } else {
                    assert(m2[a] == m2.subrange(0, m1.len() as int)[a]);
                    let c = choose|c: int| 0 <= c < i && #[trigger] candidates@.subrange(0, i as int)[c] == m1[a].node_map@[pattern_node as int];
                    assert(valid_ext(pattern, host, &s1, m2[b].node_map@, m2[b].edge_map@));
                    assert(candidates@[c] < candidates@[i as int]);
                }
            }
        }
        i = i + 1;
    }
    proof {
        assert(candidates@.subrange(0, candidates@.len() as int) =~= candidates@);
    }
}

impl SearchState {
    /// Nothing mapped, nothing used.
    fn new(pattern_node_count: usize, host_node_count: usize, pattern_edge_count: usize, host_edge_count: usize) -> (r: Self)
        ensures
            r.pattern_to_host_node@ == Seq::new(pattern_node_count as nat, |i: int| None::<usize>),
            r.host_node_used@ == Seq::new(host_node_count as nat, |i: int| false),
            r.pattern_to_host_edge@ == Seq::new(pattern_edge_count as nat, |i: int| None::<usize>),
            r.host_edge_used@ == Seq::new(host_edge_count as nat, |i: int| false),
    {
        SearchState {
            pattern_to_host_node: nones_vec(pattern_node_count),
            host_node_used: falses_vec(host_node_count),
            pattern_to_host_edge: nones_vec(pattern_edge_count),
            host_edge_used: falses_vec(host_edge_count),
        }
    }
}

/// `n` unmapped positions.
fn nones_vec(n: usize) -> (r: Vec<Option<usize>>)
    ensures
        r@ == Seq::new(n as nat, |i: int| None::<usize>),
{
    let mut v: Vec<Option<usize>> = Vec::new();
    let mut i: usize = 0;
    while i < n
        invariant
            i <= n,
            v@ == Seq::new(i as nat, |k: int| None::<usize>),
        decreases n - i,
    {
        v.push(None);
        i = i + 1;
        assert(v@ =~= Seq::new(i as nat, |k: int| None::<usize>));
    }
    v
}

/// `n` unused marks.
fn falses_vec(n: usize) -> (r: Vec<bool>)
    ensures
        r@ == Seq::new(n as nat, |i: int| false),
{
    let mut v: Vec<bool> = Vec::new();
    let mut i: usize = 0;
    while i < n
        invariant
            i <= n,
            v@ == Seq::new(i as nat, |k: int| false),
        decreases n - i,
    {
        v.push(false);
        i = i + 1;
        assert(v@ =~= Seq::new(i as nat, |k: int| false));
    }
    v
}

/// All matches of `pattern` in `host` (see `is_match`), in the order the
/// search meets them, each once; none at all when the pattern has a longer
/// boundary, or more nodes or edges, than the host.
pub fn enumerate_matches_generic<O: PartialEq, A: PartialEq>(
    pattern: &PreparedOpenHypergraph<O, A>,
    host: &PreparedOpenHypergraph<O, A>,
) -> (r: Vec<StrictOpenHypergraphMatch>)
    requires
        pattern.searchable(),
        host.searchable(),
    ensures
        !sizes_fit(pattern, host) ==> r@.len() == 0,
        sizes_fit(pattern, host) ==> {
            &&& forall|k: int| 0 <= k < r@.len() ==> is_match(pattern, host, (#[trigger] r@[k]).node_map@, r@[k].edge_map@)
            &&& forall|nm: Seq<usize>, em: Seq<usize>| #[trigger] is_match(pattern, host, nm, em) ==> found_from(r@, 0, nm, em)
            &&& distinct_from(r@, 0)
        },
{
    if pattern.source_len() > host.source_len() || pattern.target_len() > host.target_len() || pattern.node_count()
        > host.node_count() || pattern.edge_count() > host.edge_count() {
        return Vec::new();
    }
    let mut matches: Vec<StrictOpenHypergraphMatch> = Vec::new();
    let mut state = SearchState::new(
        pattern.node_count(),
        host.node_count(),
        pattern.edge_count(),
        host.edge_count(),
    );
    let ghost s0 = state;
    proof {
        assert(state_ok(pattern, host, &state));
        assert forall|nm: Seq<usize>, em: Seq<usize>| #[trigger] is_match(pattern, host, nm, em) implies valid_ext(
            pattern,
            host,
            &s0,
            nm,
            em,
        ) by {}
    }
    search(pattern, host, &mut state, &mut matches);
    proof {
        assert(matches@.subrange(0, 0) =~= Seq::<StrictOpenHypergraphMatch>::empty());
    }
    matches
}

/// `r` is exactly the matches of `p` in `h`, each once: none when the
/// pattern has a longer boundary, or more nodes or edges, than the host.
pub open spec fn all_matches<O: PartialEq, A: PartialEq>(
    p: PreparedOpenHypergraph<O, A>,
    h: PreparedOpenHypergraph<O, A>,
    r: Seq<StrictOpenHypergraphMatch>,
) -> bool {
    &&& !sizes_fit(&p, &h) ==> r.len() == 0
    &&& sizes_fit(&p, &h) ==> {
        &&& forall|k: int| 0 <= k < r.len() ==> is_match(&p, &h, (#[trigger] r[k]).node_map@, r[k].edge_map@)
        &&& forall|nm: Seq<usize>, em: Seq<usize>| #[trigger] is_match(&p, &h, nm, em) ==> found_from(r, 0, nm, em)
        &&& distinct_from(r, 0)
    }
}

/// A strict graph whose model is well formed and whose nodes and edges can
/// be counted in `usize`.
pub open spec fn decodable<S, G>(g: MonomialGraph<S, G>) -> bool {
    &&& g.graph_view().wf()
    &&& g.graph_view().nodes.len() < usize::MAX
    &&& g.graph_view().edges.len() < usize::MAX
}

/// All matches of the strict graph `pattern` in the strict graph `host`:
/// both are decoded by `PreparedOpenHypergraph::new` and searched by
/// `enumerate_matches_generic`, so the result is exactly the matches of the
/// decoded pattern in the decoded host. None when a graph cannot be
/// decoded, which a well-formed graph of countable size always can.
pub fn enumerate_matches<S: Label, G: Label>(pattern: &MonomialGraph<S, G>, host: &MonomialGraph<S, G>) -> (r: Vec<
    StrictOpenHypergraphMatch,
>)
    ensures
        decodable(*pattern) && decodable(*host) ==> exists|
            p: PreparedOpenHypergraph<MonomialHyperNode<S>, MonomialTapeEdge<S, G>>,
            h: PreparedOpenHypergraph<MonomialHyperNode<S>, MonomialTapeEdge<S, G>>,
        |
            #![trigger decodes(*pattern, p), decodes(*host, h)]
            decodes(*pattern, p) && decodes(*host, h) && all_matches(p, h, r@),
{
    let pattern_data = PreparedOpenHypergraph::new(pattern);
    let host_data = PreparedOpenHypergraph::new(host);
    match (pattern_data, host_data) {
        (Some(p), Some(h)) => {
            let r = enumerate_matches_generic(&p, &h);
            proof {
                assert(all_matches(p, h, r@));
                if decodable(*pattern) && decodable(*host) {
                    assert(decodes(*pattern, p) && decodes(*host, h));
                }
            }
            r
        },
        _ => Vec::new(),
    }
}

} // verus!
