//! The second stage: variables, `let` and addition, with a reference
//! evaluator.

pub mod expr;
pub mod compiler;
pub mod correctness;
