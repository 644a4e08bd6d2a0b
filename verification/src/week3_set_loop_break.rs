//! The third stage: tagged numbers and booleans, input, equality,
//! assignment, blocks and loops with `break`.
pub mod compiler;
pub mod correctness;
pub mod expr;
