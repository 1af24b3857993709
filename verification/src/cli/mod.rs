//! The command line's own text formats.

pub mod output;
