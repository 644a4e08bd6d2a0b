//! The fifth stage: programs of function definitions and a main expression,
//! with pairs on the heap.
pub mod expr;
