//! Rewriting of hypergraphs drawn from monomial tapes.

pub mod monomial;
pub mod strict_graph;
