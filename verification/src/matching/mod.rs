//! Matching of a pattern open hypergraph into a host.

pub mod prepared;
pub mod strict_open_hypergraph;
