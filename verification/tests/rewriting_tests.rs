use tapepy::matching::prepared::PreparedOpenHypergraph;
use tapepy::matching::strict_open_hypergraph::enumerate_matches;
use tapepy::rewriting::monomial::{
    additive_split_then_merge_rule, distinct_contexts, frobenius_rules_for_graph,
    from_add_to_mul_then_from_mul_to_add_rule, from_mul_to_add_then_from_add_to_mul_rule,
    object_labels, nodes_equal,
};
use tapepy::rewriting::strict_graph::MonomialGraph;
use tapepy::tape_language::monomial_tape::{MonomialHyperNode, MonomialTapeEdge, TensorKind};
use tapepy::tape_language::Monomial;

#[test]
fn constructs_conversion_rules() {
    let context = Monomial::from_sorts(vec!["x", "y"]);
    let _rule0 = from_add_to_mul_then_from_mul_to_add_rule::<_, ()>(&context).unwrap();
    let _rule1 = from_mul_to_add_then_from_add_to_mul_rule::<_, ()>(&context).unwrap();
}

#[test]
fn constructs_additive_split_merge_rule() {
    let context = Monomial::from_sorts(vec!["x", "y"]);
    let _rule = additive_split_then_merge_rule::<_, ()>(&context);
    assert!(_rule.is_some());
}

#[test]
fn conversion_rules_on_the_unit_context() {
    let context: Monomial<&str> = Monomial::one();
    assert!(from_add_to_mul_then_from_mul_to_add_rule::<_, ()>(&context).is_some());
    assert!(additive_split_then_merge_rule::<_, ()>(&context).is_some());
}

#[test]
fn rules_for_a_graph_cover_each_distinct_context() {
    let context = Monomial::from_sorts(vec!["x", "y"]);
    let rule = from_add_to_mul_then_from_mul_to_add_rule::<_, ()>(&context).unwrap();
    let rules = frobenius_rules_for_graph(&rule.lhs);
    assert_eq!(rules.len(), 6);
}

#[test]
fn object_labels_puts_each_atom_in_the_tensor() {
    let context = Monomial::from_sorts(vec!["x", "y", "x"]);
    let labels = object_labels(&context, TensorKind::Multiplicative);
    let expected = vec![
        MonomialHyperNode::new(TensorKind::Multiplicative, Monomial::atom("x")),
        MonomialHyperNode::new(TensorKind::Multiplicative, Monomial::atom("y")),
        MonomialHyperNode::new(TensorKind::Multiplicative, Monomial::atom("x")),
    ];
    assert!(nodes_equal(&labels, &expected));
}

#[test]
fn distinct_contexts_keeps_first_occurrences() {
    let nodes = vec![
        MonomialHyperNode::new(TensorKind::Additive, Monomial::atom("y")),
        MonomialHyperNode::new(TensorKind::Multiplicative, Monomial::atom("x")),
        MonomialHyperNode::new(TensorKind::Multiplicative, Monomial::atom("y")),
        MonomialHyperNode::new(TensorKind::Additive, Monomial::from_sorts(vec!["x", "y"])),
        MonomialHyperNode::new(
            TensorKind::Additive,
            Monomial::product(Monomial::atom("x"), Monomial::atom("y")),
        ),
    ];
    let contexts = distinct_contexts(&nodes);
    assert_eq!(
        contexts,
        vec![
            Monomial::atom("y"),
            Monomial::atom("x"),
            Monomial::from_sorts(vec!["x", "y"]),
        ]
    );
}

#[test]
fn tensor_kind_flips() {
    assert_eq!(TensorKind::Additive.flipped(), TensorKind::Multiplicative);
    assert_eq!(TensorKind::Multiplicative.flipped(), TensorKind::Additive);
}

#[test]
fn a_rule_side_decodes_and_matches_itself() {
    let context = Monomial::from_sorts(vec!["x", "y"]);
    let rule = additive_split_then_merge_rule::<&str, ()>(&context).expect("a rule");
    let decoded = PreparedOpenHypergraph::new(&rule.lhs).expect("a decodable graph");
    assert_eq!(decoded.node_labels.len(), decoded.nodes.len());
    let matches = enumerate_matches(&rule.lhs, &rule.lhs);
    assert!(!matches.is_empty());
    let identity: Vec<usize> = (0..decoded.nodes.len()).collect();
    assert!(matches.iter().any(|m| m.node_map == identity));
}

#[test]
fn derives_frobenius_rules_from_graph() {
    let add_node = MonomialHyperNode::new(TensorKind::Additive, Monomial::atom("x"));
    let mul_node = MonomialHyperNode::new(TensorKind::Multiplicative, Monomial::atom("x"));
    let graph: MonomialGraph<&str, ()> = MonomialGraph::singleton(
        MonomialTapeEdge::FromAddToMul(Monomial::atom("x")),
        vec![add_node],
        vec![mul_node],
    );
    let rules = frobenius_rules_for_graph(&graph);
    assert_eq!(rules.len(), 3);
}
