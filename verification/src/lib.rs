//! Arithmetic computation graphs over wrapping `u32` values, with equality
//! constraints and hint nodes whose values are supplied by the caller.

pub mod node;
pub mod operation;
pub mod eval;
pub mod lemmas;
pub mod builder;
pub mod laws;
