//! Compilers for the snek language, in the stages in which the language grew:
//! a parser from s-expressions to syntax trees, a reference evaluator, and code
//! generators that emit x86-64 assembly text.

pub mod current;
pub mod machine;
pub mod env;
pub mod lines;
pub mod sexpr;
pub mod text;
pub mod week1;
pub mod week2_if;
pub mod week2_plus;
pub mod week3_set_loop_break;
pub mod week4_print;
pub mod week5_vec;
