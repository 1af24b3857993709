use tapepy::hypergraph_utils::{component_nodes, connected_components, connected_components_with_edges};
use tapepy::tape_language::lax_graph::LaxGraph;

fn normalize(mut comps: Vec<Vec<usize>>) -> Vec<Vec<usize>> {
    for comp in comps.iter_mut() {
        comp.sort();
    }
    comps.sort();
    comps
}

#[test]
fn connected_components_basic() {
    let mut graph: LaxGraph<(), ()> = LaxGraph::empty();
    let n0 = graph.new_node(());
    let n1 = graph.new_node(());
    let n2 = graph.new_node(());
    let n3 = graph.new_node(());

    graph.new_edge((), vec![n0], vec![n1]);
    graph.unify(n2, n3);

    let comps = connected_components(&graph);
    let normalized = normalize(comps);

    assert_eq!(normalized, vec![vec![0, 1], vec![2, 3]]);
}

#[test]
fn connected_components_with_edges_basic() {
    let mut graph: LaxGraph<(), ()> = LaxGraph::empty();
    let n0 = graph.new_node(());
    let n1 = graph.new_node(());
    let n2 = graph.new_node(());
    let n3 = graph.new_node(());

    graph.new_edge((), vec![n0], vec![n1]);
    graph.new_edge((), vec![n2], vec![n3]);

    let mut components = connected_components_with_edges(&graph);
    components.sort_by_key(|component| component.nodes.first().copied().unwrap_or(0));

    assert_eq!(components.len(), 2);
    assert_eq!(components[0].nodes, vec![0, 1]);
    assert_eq!(components[0].edges, vec![0]);
    assert_eq!(components[1].nodes, vec![2, 3]);
    assert_eq!(components[1].edges, vec![1]);
}

#[test]
fn components_follow_chains_of_links_in_order_of_first_nodes() {
    let mut graph: LaxGraph<(), ()> = LaxGraph::empty();
    for _ in 0..6 {
        graph.new_node(());
    }
    graph.new_edge((), vec![4], vec![1]);
    graph.new_edge((), vec![], vec![]);
    graph.unify(1, 5);
    graph.new_edge((), vec![], vec![2, 0]);

    let components = connected_components_with_edges(&graph);
    assert_eq!(components.len(), 4);
    assert_eq!(components[0].nodes, vec![0, 2]);
    assert_eq!(components[0].edges, vec![2]);
    assert_eq!(components[1].nodes, vec![1, 4, 5]);
    assert_eq!(components[1].edges, vec![0]);
    assert_eq!(components[2].nodes, vec![3]);
    assert!(components[2].edges.is_empty());
    assert!(components[3].nodes.is_empty());
    assert_eq!(components[3].edges, vec![1]);

    let (lists, map) = component_nodes(&graph);
    assert_eq!(lists, vec![vec![0, 2], vec![1, 4, 5], vec![3]]);
    assert_eq!(map, vec![0, 1, 0, 2, 1, 1]);

    let nodes_only = connected_components(&graph);
    assert_eq!(nodes_only, vec![vec![0, 2], vec![1, 4, 5], vec![3], vec![]]);
}
