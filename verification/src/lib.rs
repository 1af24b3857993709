//! Tapepy: a compiler from a small imperative Python fragment to tape
//! diagrams (string diagrams for sums and products of sorts).
//!
//! The library holds the tape language (monomials, polynomials, circuits,
//! tapes and their whiskering and distributors), the type inference of
//! expressions and commands over the library's own syntax tree, the
//! translation of typed commands into tapes, and the finite-domain type
//! solver.

pub mod cli;
pub mod command_dot;
pub mod command_tape;
pub mod command_typing;
pub mod compiler;
pub mod context;
pub mod expression_circuit;
pub mod frontends;
pub mod hypergraph_utils;
pub mod label;
pub mod matching;
pub mod predicate_tape;
pub mod program_tape;
pub mod python_builtin_signatures;
pub mod rewriting;
pub mod solver;
pub mod strictify;
pub mod syntax;
pub mod types;
pub mod typing;
pub mod tape_language;
pub mod tape_model;
