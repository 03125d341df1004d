//! Approximate cycle search in iterated hash chains.

pub mod distance;
pub mod args;
pub mod hash;
