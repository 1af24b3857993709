use tapepy::expression_circuit::ExprGenerator;
use tapepy::strictify::strictify_drawing;
use tapepy::tape_language::lax_graph::LaxGraph;
use tapepy::tape_language::monomial_tape::{MonomialDrawing, MonomialHyperNode, TensorKind};
use tapepy::tape_language::Monomial;
use tapepy::types::{TypeExpr, TypeVar};

fn node(ty: TypeExpr) -> MonomialHyperNode<TypeExpr> {
    MonomialHyperNode::new(TensorKind::Multiplicative, Monomial::atom(ty))
}

fn drawing(nodes: Vec<MonomialHyperNode<TypeExpr>>, quotient: Vec<(usize, usize)>) -> MonomialDrawing<TypeExpr, ExprGenerator> {
    LaxGraph {
        nodes,
        edges: Vec::new(),
        adjacency: Vec::new(),
        quotient,
        sources: vec![2],
        targets: vec![1, 3],
    }
}

#[test]
fn identified_nodes_become_one_numbered_by_first_occurrence() {
    let g = drawing(
        vec![node(TypeExpr::Int), node(TypeExpr::Bool), node(TypeExpr::Int), node(TypeExpr::Bool)],
        vec![(0, 2), (3, 1)],
    );
    let h = strictify_drawing(g).expect("identified nodes carry equal labels");
    assert_eq!(h.nodes.len(), 2);
    assert_eq!(h.nodes[0], node(TypeExpr::Int));
    assert_eq!(h.nodes[1], node(TypeExpr::Bool));
    assert!(h.quotient.is_empty());
    assert_eq!(h.sources, vec![0]);
    assert_eq!(h.targets, vec![1, 1]);
}

#[test]
fn nodes_without_identifications_stay_apart() {
    let g = drawing(
        vec![node(TypeExpr::Int), node(TypeExpr::Var(TypeVar(0))), node(TypeExpr::Int), node(TypeExpr::Bool)],
        Vec::new(),
    );
    let h = strictify_drawing(g).expect("nothing to identify");
    assert_eq!(h.nodes.len(), 4);
    assert_eq!(h.sources, vec![2]);
    assert_eq!(h.targets, vec![1, 3]);
}

#[test]
fn identified_nodes_with_different_labels_are_refused() {
    let g = drawing(
        vec![node(TypeExpr::Int), node(TypeExpr::Bool), node(TypeExpr::Float), node(TypeExpr::Bool)],
        vec![(0, 2)],
    );
    assert!(strictify_drawing(g).is_none());
}
