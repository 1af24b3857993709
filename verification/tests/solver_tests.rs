use tapepy::solver::{apply_substitution, solve_hypergraph_types, solve_type_equations, SolveError};
use tapepy::tape_language::lax_graph::LaxGraph;
use tapepy::types::{TypeConstraint, TypeExpr, TypeVar};

#[test]
fn a_numeric_variable_gets_the_first_numeric_type() {
    let v = TypeExpr::Var(TypeVar(0));
    let s = solve_type_equations(&[v.clone()], &[TypeConstraint::Numeric(v.clone())]).expect("a solution");
    assert_eq!(s.apply(&v), TypeExpr::Int);
}

#[test]
fn an_unconstrained_variable_gets_the_first_candidate() {
    let v = TypeExpr::Var(TypeVar(3));
    let s = solve_type_equations(&[v.clone()], &[]).expect("a solution");
    assert_eq!(s.apply(&v), TypeExpr::Bool);
}

#[test]
fn equal_variables_share_the_first_type_that_works() {
    let a = TypeExpr::Var(TypeVar(0));
    let b = TypeExpr::Var(TypeVar(1));
    let s = solve_type_equations(
        &[a.clone(), b.clone()],
        &[TypeConstraint::Equal(a.clone(), b.clone()), TypeConstraint::Numeric(b.clone())],
    )
    .expect("a solution");
    assert_eq!(s.apply(&a), TypeExpr::Int);
    assert_eq!(s.apply(&b), TypeExpr::Int);
}

#[test]
fn a_variable_both_bool_and_numeric_has_no_solution() {
    let v = TypeExpr::Var(TypeVar(0));
    let r = solve_type_equations(
        &[v.clone()],
        &[TypeConstraint::Equal(v.clone(), TypeExpr::Bool), TypeConstraint::Numeric(v.clone())],
    );
    assert!(matches!(r, Err(SolveError::NoSolution)));
}

#[test]
fn identified_nodes_of_a_drawing_get_one_type() {
    let mut graph: LaxGraph<TypeExpr, ()> = LaxGraph::empty();
    graph.nodes = vec![TypeExpr::Var(TypeVar(0)), TypeExpr::Int];
    graph.quotient = vec![(0, 1)];
    let s = solve_hypergraph_types(&graph).expect("a solution");
    assert_eq!(s.apply(&TypeExpr::Var(TypeVar(0))), TypeExpr::Int);
    let solved = apply_substitution(graph, &s);
    assert_eq!(solved.nodes, vec![TypeExpr::Int, TypeExpr::Int]);
    assert_eq!(solved.quotient, vec![(0, 1)]);
}

#[test]
fn identified_nodes_with_clashing_types_have_no_solution() {
    let mut graph: LaxGraph<TypeExpr, ()> = LaxGraph::empty();
    graph.nodes = vec![TypeExpr::Bool, TypeExpr::Int];
    graph.quotient = vec![(0, 1)];
    assert!(matches!(solve_hypergraph_types(&graph), Err(SolveError::NoSolution)));
}
