//! The front ends that turn program text into derivation trees.

pub mod python;
