use tapepy::expression_circuit::ExprGenerator;
use tapepy::program_tape::solve_program_tape_with_subst;
use tapepy::tape_language::circuit::Circuit;
use tapepy::tape_language::drawing::TapeEdge;
use tapepy::tape_language::lax_graph::{compose_lax_unchecked, LaxGraph};
use tapepy::tape_language::monomial_tape::{translate_tape, MonomialTape, TensorKind};
use tapepy::tape_language::{Monomial, Tape};
use tapepy::types::{TypeExpr, TypeVar};

type TapeTy = Tape<TypeExpr, ExprGenerator>;

#[test]
fn lax_composition_identifies_targets_with_sources() {
    let left: LaxGraph<char, ()> = LaxGraph::identity(vec!['a', 'b']);
    let right: LaxGraph<char, ()> = LaxGraph::singleton((), vec!['a', 'b'], vec!['c']);
    let composed = compose_lax_unchecked(left, right);
    assert_eq!(composed.nodes, vec!['a', 'b', 'a', 'b', 'c']);
    assert_eq!(composed.quotient, vec![(0, 2), (1, 3)]);
    assert_eq!(composed.sources, vec![0, 1]);
    assert_eq!(composed.targets, vec![4]);
    assert_eq!(composed.adjacency[0].sources, vec![2, 3]);
    assert_eq!(composed.adjacency[0].targets, vec![4]);
}

#[test]
fn lax_tensor_shifts_the_second_graph() {
    let left: LaxGraph<char, ()> = LaxGraph::identity(vec!['a']);
    let right: LaxGraph<char, ()> = LaxGraph::singleton((), vec!['b'], vec!['c', 'd']);
    let both = left.tensor(right);
    assert_eq!(both.nodes, vec!['a', 'b', 'c', 'd']);
    assert_eq!(both.sources, vec![0, 1]);
    assert_eq!(both.targets, vec![0, 2, 3]);
    assert_eq!(both.adjacency[0].sources, vec![1]);
    assert_eq!(both.adjacency[0].targets, vec![2, 3]);
}

#[test]
fn drawing_a_split_doubles_the_targets() {
    let tape: TapeTy = Tape::Split(Monomial::from_sorts(vec![TypeExpr::Int, TypeExpr::Bool]));
    let mut next = 0;
    let graph = tape.to_hypergraph(&mut next);
    assert_eq!(graph.sources, vec![0, 1]);
    assert_eq!(graph.targets, vec![0, 1, 0, 1]);
    assert_eq!(next, 0);
}

#[test]
fn drawing_an_embedded_generator_makes_one_edge() {
    let g = ExprGenerator::function("f".to_string(), vec![TypeExpr::Int], vec![TypeExpr::Bool]);
    let tape: TapeTy = Tape::EmbedCircuit(Box::new(Circuit::Generator(g)));
    let mut next = 0;
    let graph = tape.to_hypergraph(&mut next);
    assert_eq!(graph.nodes, vec![Monomial::atom(TypeExpr::Int), Monomial::atom(TypeExpr::Bool)]);
    assert_eq!(graph.sources, vec![0]);
    assert_eq!(graph.targets, vec![1]);
    assert_eq!(graph.edges.len(), 1);
    match &graph.edges[0] {
        TapeEdge::Embedded(child) => {
            assert_eq!(child.nodes, vec![TypeExpr::Int, TypeExpr::Bool]);
            assert_eq!(child.edges.len(), 1);
        }
        TapeEdge::Product(_, _) => panic!("expected an embedded circuit"),
    }
}

#[test]
fn drawing_a_trace_identifies_the_traced_wires() {
    let inner: TapeTy = Tape::Id(Monomial::from_sorts(vec![TypeExpr::Int, TypeExpr::Bool]));
    let tape: TapeTy = Tape::Trace {
        around: Monomial::atom(TypeExpr::Int),
        tape: Box::new(inner),
    };
    let mut next = 0;
    let graph = tape.to_hypergraph(&mut next);
    assert_eq!(graph.quotient, vec![(0, 0)]);
    assert_eq!(graph.sources, vec![1]);
    assert_eq!(graph.targets, vec![1]);
}

#[test]
fn drawing_counts_wires_and_made_up_sorts() {
    let tape: TapeTy = Tape::Sequence(
        Box::new(Tape::Id(Monomial::atom(TypeExpr::Int))),
        Box::new(Tape::Discard(Monomial::atom(TypeExpr::Int))),
    );
    assert_eq!(tape.wire_counts(), Some((1, 0)));
    assert_eq!(tape.fresh_count(), Some(0));
    let bad: TapeTy = Tape::Sequence(
        Box::new(Tape::Id(Monomial::atom(TypeExpr::Int))),
        Box::new(Tape::Create(Monomial::atom(TypeExpr::Int))),
    );
    assert_eq!(bad.wire_counts(), None);
}

#[test]
fn solving_a_drawing_binds_identified_variables() {
    let var = TypeExpr::Var(TypeVar(0));
    let tape: TapeTy = Tape::Sequence(
        Box::new(Tape::Id(Monomial::atom(var.clone()))),
        Box::new(Tape::Id(Monomial::atom(TypeExpr::Int))),
    );
    let mut next = 0;
    let graph = tape.to_hypergraph(&mut next);
    let (solved, subst) = solve_program_tape_with_subst(&graph, &[]).expect("expected a solution");
    assert_eq!(subst.apply(&var), TypeExpr::Int);
    assert_eq!(solved.nodes, vec![Monomial::atom(TypeExpr::Int), Monomial::atom(TypeExpr::Int)]);
}

#[test]
fn solving_a_drawing_with_clashing_types_fails() {
    let tape: TapeTy = Tape::Sequence(
        Box::new(Tape::Id(Monomial::atom(TypeExpr::Bool))),
        Box::new(Tape::Id(Monomial::atom(TypeExpr::Int))),
    );
    let mut next = 0;
    let graph = tape.to_hypergraph(&mut next);
    assert!(solve_program_tape_with_subst(&graph, &[]).is_err());
}

#[test]
fn monomial_drawing_converts_tensors_at_the_boundary() {
    let tape: TapeTy = Tape::Discard(Monomial::atom(TypeExpr::Int));
    let mut next = 0;
    let graph = translate_tape(&tape, TensorKind::Multiplicative, &mut next);
    assert_eq!(graph.sources.len(), 1);
    assert_eq!(graph.targets.len(), 0);
    assert_eq!(graph.edges.len(), 1);
    let kinds: Vec<TensorKind> = graph.nodes.iter().map(|n| n.tensor_kind).collect();
    assert_eq!(kinds, vec![TensorKind::Multiplicative, TensorKind::Additive, TensorKind::Additive]);

    let same = translate_tape(&tape, TensorKind::Additive, &mut next);
    assert_eq!(same.edges.len(), 0);
}

#[test]
fn monomial_tape_drawing_uses_the_multiplicative_boundary() {
    let tape: TapeTy = Tape::Id(Monomial::from_sorts(vec![TypeExpr::Int, TypeExpr::Bool]));
    let monomial_tape = MonomialTape::try_from_tape(tape).unwrap();
    let mut next = 0;
    let graph = monomial_tape.to_hypergraph(&mut next);
    assert_eq!(graph.sources, vec![0, 1]);
    assert!(graph.nodes.iter().all(|n| n.tensor_kind == TensorKind::Multiplicative));
}

#[test]
fn drawing_a_sum_puts_the_left_summand_first() {
    let tape: Tape<TypeExpr, ExprGenerator> = Tape::Sum(
        Box::new(Tape::Id(Monomial::atom(TypeExpr::Int))),
        Box::new(Tape::Id(Monomial::atom(TypeExpr::Bool))),
    );
    let mut next = 0usize;
    let graph = tape.to_hypergraph(&mut next);
    assert_eq!(graph.nodes, vec![Monomial::atom(TypeExpr::Int), Monomial::atom(TypeExpr::Bool)]);
    assert_eq!(graph.sources, vec![0, 1]);
    assert_eq!(graph.targets, vec![0, 1]);
}

#[test]
fn monomial_drawing_of_a_sum_puts_the_left_summand_first() {
    let tape: Tape<TypeExpr, ExprGenerator> = Tape::Sum(
        Box::new(Tape::Id(Monomial::atom(TypeExpr::Int))),
        Box::new(Tape::Id(Monomial::atom(TypeExpr::Bool))),
    );
    let monomial_tape = MonomialTape::try_from_tape(tape).expect("a tape");
    let mut next = 0usize;
    let graph = monomial_tape.to_hypergraph(&mut next);
    assert_eq!(graph.nodes.len(), 2);
    assert_eq!(graph.nodes[0].context, Monomial::atom(TypeExpr::Int));
    assert_eq!(graph.nodes[1].context, Monomial::atom(TypeExpr::Bool));
}
