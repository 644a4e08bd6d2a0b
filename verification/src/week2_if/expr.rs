//! Expressions of the second stage with conditionals.
use vstd::prelude::*;

verus! {

#[derive(Debug)]
pub enum Expr {
    Num(i32),
    Add1(Box<Expr>),
    Sub1(Box<Expr>),
    Neg(Box<Expr>),
    Var(String),
    Let(String, Box<Expr>, Box<Expr>),
    Plus(Box<Expr>, Box<Expr>),
    If(Box<Expr>, Box<Expr>, Box<Expr>),
    True,
    False,
    Eq(Box<Expr>, Box<Expr>),
}

} // verus!
