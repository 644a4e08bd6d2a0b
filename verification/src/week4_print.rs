//! The fourth stage: booleans, conditionals, mutation, blocks, loops and
//! printing.
pub mod expr;
