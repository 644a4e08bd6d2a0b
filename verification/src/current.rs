//! The current compiler: programs of function definitions and a main
//! expression, tagged values, pairs on the heap.
pub mod compiler;
pub mod correctness;
pub mod frame;
pub mod laws;
pub mod listing;
pub mod stores;
