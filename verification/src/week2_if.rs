//! The second stage extended with booleans and conditionals.
pub mod compiler;
pub mod correctness;
pub mod expr;
