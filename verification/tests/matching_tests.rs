use tapepy::matching::prepared::{extract_edges, EdgeInfo, PreparedOpenHypergraph};
use tapepy::matching::strict_open_hypergraph::enumerate_matches_generic;

fn graph(
    node_labels: Vec<char>,
    edge_labels: Vec<char>,
    edge_sources: Vec<Vec<usize>>,
    edge_targets: Vec<Vec<usize>>,
    sources: Vec<usize>,
    targets: Vec<usize>,
) -> PreparedOpenHypergraph<char, char> {
    let edges = edge_sources
        .into_iter()
        .zip(edge_targets)
        .map(|(sources, targets)| EdgeInfo { sources, targets })
        .collect();
    PreparedOpenHypergraph::from_parts(node_labels, edge_labels, edges, &sources, &targets)
        .expect("well-formed graph")
}

#[test]
fn finds_single_match_with_boundary_and_labels() {
    let pattern = graph(vec!['A', 'B'], vec!['F'], vec![vec![0]], vec![vec![1]], vec![0], vec![1]);
    let host = graph(
        vec!['A', 'B', 'A'],
        vec!['F', 'G'],
        vec![vec![0], vec![2]],
        vec![vec![1], vec![1]],
        vec![0],
        vec![1],
    );

    let matches = enumerate_matches_generic(&pattern, &host);
    assert_eq!(matches.len(), 1);
    assert_eq!(matches[0].node_map, vec![0, 1]);
    assert_eq!(matches[0].edge_map, vec![0]);
}

#[test]
fn rejects_host_with_wrong_boundary_positions() {
    let pattern = graph(vec!['A', 'B'], vec!['F'], vec![vec![0]], vec![vec![1]], vec![0], vec![1]);
    let host = graph(vec!['A', 'B'], vec!['F'], vec![vec![0]], vec![vec![1]], vec![1], vec![0]);

    let matches = enumerate_matches_generic(&pattern, &host);
    assert!(matches.is_empty());
}

#[test]
fn enumerates_multiple_non_induced_matches() {
    let pattern = graph(vec!['A', 'B'], vec!['F'], vec![vec![0]], vec![vec![1]], vec![], vec![]);
    let host = graph(
        vec!['A', 'B', 'A', 'B'],
        vec!['F', 'F', 'G'],
        vec![vec![0], vec![2], vec![0]],
        vec![vec![1], vec![3], vec![3]],
        vec![],
        vec![],
    );

    let matches = enumerate_matches_generic(&pattern, &host);
    assert_eq!(matches.len(), 2);
    assert_eq!(matches[0].edge_map.len(), 1);
}

#[test]
fn matches_come_in_candidate_order_and_are_distinct() {
    let pattern = graph(vec!['A', 'B'], vec!['F'], vec![vec![0]], vec![vec![1]], vec![], vec![]);
    let host = graph(
        vec!['A', 'B', 'A', 'B'],
        vec!['F', 'F', 'G'],
        vec![vec![0], vec![2], vec![0]],
        vec![vec![1], vec![3], vec![3]],
        vec![],
        vec![],
    );

    let matches = enumerate_matches_generic(&pattern, &host);
    assert_eq!(matches[0].edge_map, vec![0]);
    assert_eq!(matches[0].node_map, vec![0, 1]);
    assert_eq!(matches[1].edge_map, vec![1]);
    assert_eq!(matches[1].node_map, vec![2, 3]);
}

#[test]
fn empty_pattern_has_exactly_the_empty_match() {
    let pattern = graph(vec![], vec![], vec![], vec![], vec![], vec![]);
    let host = graph(vec!['A'], vec![], vec![], vec![], vec![], vec![]);

    let matches = enumerate_matches_generic(&pattern, &host);
    assert_eq!(matches.len(), 1);
    assert!(matches[0].node_map.is_empty());
    assert!(matches[0].edge_map.is_empty());
}

#[test]
fn isolated_nodes_map_injectively() {
    let pattern = graph(vec!['A', 'A'], vec![], vec![], vec![], vec![], vec![]);
    let host = graph(vec!['A', 'A', 'B'], vec![], vec![], vec![], vec![], vec![]);

    let matches = enumerate_matches_generic(&pattern, &host);
    assert_eq!(matches.len(), 2);
    for m in &matches {
        assert_ne!(m.node_map[0], m.node_map[1]);
        assert!(m.node_map.iter().all(|&n| n < 2));
    }
}

#[test]
fn repeated_pattern_node_needs_repeated_host_node() {
    // the pattern edge reads the same node twice; only the host edge that does so too matches
    let pattern = graph(vec!['A'], vec!['F'], vec![vec![0, 0]], vec![vec![]], vec![], vec![]);
    let host = graph(
        vec!['A', 'A'],
        vec!['F', 'F'],
        vec![vec![0, 1], vec![1, 1]],
        vec![vec![], vec![]],
        vec![],
        vec![],
    );

    let matches = enumerate_matches_generic(&pattern, &host);
    assert_eq!(matches.len(), 1);
    assert_eq!(matches[0].edge_map, vec![1]);
    assert_eq!(matches[0].node_map, vec![1]);
}

#[test]
fn larger_pattern_has_no_match() {
    let pattern = graph(vec!['A', 'A'], vec![], vec![], vec![], vec![], vec![]);
    let host = graph(vec!['A'], vec![], vec![], vec![], vec![], vec![]);
    assert!(enumerate_matches_generic(&pattern, &host).is_empty());
}

#[test]
fn from_parts_refuses_ports_outside_the_nodes() {
    let edges = vec![EdgeInfo { sources: vec![2], targets: vec![] }];
    let g = PreparedOpenHypergraph::from_parts(vec!['A'], vec!['F'], edges, &vec![], &vec![]);
    assert!(g.is_none());
}

#[test]
fn from_parts_records_boundary_positions_and_incidence() {
    let g = graph(vec!['A', 'B'], vec!['F'], vec![vec![0, 0]], vec![vec![1]], vec![0, 1, 0], vec![1]);
    assert_eq!(g.nodes[0].source_positions, vec![0, 2]);
    assert_eq!(g.nodes[1].source_positions, vec![1]);
    assert_eq!(g.nodes[1].target_positions, vec![0]);
    assert_eq!(g.nodes[0].source_incidence_count, 2);
    assert_eq!(g.nodes[1].target_incidence_count, 1);
    assert_eq!(g.nodes[0].incident_edges.len(), 2);
    assert_eq!(g.nodes[0].incident_edges[1].port, 1);
}

#[test]
fn extract_edges_cuts_segments_in_order() {
    let edges = extract_edges(2, &vec![1, 2], &vec![5, 6, 7], &vec![0, 1], &vec![9]).expect("segments fit");
    assert_eq!(edges[0].sources, vec![5]);
    assert_eq!(edges[1].sources, vec![6, 7]);
    assert!(edges[0].targets.is_empty());
    assert_eq!(edges[1].targets, vec![9]);
    assert!(extract_edges(2, &vec![1, 3], &vec![5, 6, 7], &vec![0, 1], &vec![9]).is_none());
}
