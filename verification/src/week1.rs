//! The first stage: arithmetic on one number.
pub mod expr;
