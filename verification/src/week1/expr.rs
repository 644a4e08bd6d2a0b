//! Expressions of the first stage and their parser.
use vstd::prelude::*;
use crate::sexpr::{is_symbol, small_int, symbol_is, Atom, Sexpr};

verus! {

#[derive(Debug)]
pub enum Expr {
    Num(i32),
    Add1(Box<Expr>),
    Sub1(Box<Expr>),
    Neg(Box<Expr>),
}

pub fn num(n: i32) -> (e: Expr)
    ensures
        e == Expr::Num(n),
{
    Expr::Num(n)
}

pub fn add1(e: Expr) -> (r: Expr)
    ensures
        r == Expr::Add1(Box::new(e)),
{
    Expr::Add1(Box::new(e))
}

pub fn sub1(e: Expr) -> (r: Expr)
    ensures
        r == Expr::Sub1(Box::new(e)),
{
    Expr::Sub1(Box::new(e))
}

pub fn negate(e: Expr) -> (r: Expr)
    ensures
        r == Expr::Neg(Box::new(e)),
{
    Expr::Neg(Box::new(e))
}

/// `(add1 (sub1 5))`
pub fn expr0() -> (e: Expr)
    ensures
        e == Expr::Add1(Box::new(Expr::Sub1(Box::new(Expr::Num(5))))),
{
    add1(sub1(num(5)))
}

/// `(negate (add1 5))`
pub fn expr1() -> (e: Expr)
    ensures
        e == Expr::Neg(Box::new(Expr::Add1(Box::new(Expr::Num(5))))),
{
    negate(add1(num(5)))
}

/// The expression that an s-expression denotes, or `None` where it is not
/// one: an integer that fits in `i32`, or a list of `add1`, `sub1` or
/// `negate` and one operand.
pub open spec fn parse_spec(s: Sexpr) -> Option<Expr>
    decreases s,
{
    match s {
        Sexpr::Atom(Atom::I(n)) => if small_int(n) {
            Some(Expr::Num(n as i32))
        } else {
            None
        },
        Sexpr::List(v) => if v@.len() == 2 && is_symbol(v@[0], "add1"@) {
            match parse_spec(v@[1]) {
                Some(e) => Some(Expr::Add1(Box::new(e))),
                None => None,
            }
        } else if v@.len() == 2 && is_symbol(v@[0], "sub1"@) {
            match parse_spec(v@[1]) {
                Some(e) => Some(Expr::Sub1(Box::new(e))),
                None => None,
            }
        } else if v@.len() == 2 && is_symbol(v@[0], "negate"@) {
            match parse_spec(v@[1]) {
                Some(e) => Some(Expr::Neg(Box::new(e))),
                None => None,
            }
        } else {
            None
        },
        _ => None,
    }
}

/// Parses an expression; the s-expressions that denote none are left out.
pub fn parse_expr(s: &Sexpr) -> (e: Expr)
    requires
        parse_spec(*s) is Some,
    ensures
        parse_spec(*s) == Some(e),
    decreases s,
{
    match s {
        Sexpr::Atom(Atom::I(n)) => num(*n as i32),
        Sexpr::List(vec) => {
            if vec.len() == 2 && symbol_is(&vec[0], "add1") {
                add1(parse_expr(&vec[1]))
            } else if vec.len() == 2 && symbol_is(&vec[0], "sub1") {
                sub1(parse_expr(&vec[1]))
            } else {
                negate(parse_expr(&vec[1]))
            }
        },
        _ => {
            proof {
                assert(false);
            }
            num(0)
        },
    }
}


/// What the reader makes of each form: a list headed by the symbol of an
/// operator denotes that operator's expression over what its operands
/// denote (`(negate e)` is `Neg` of what `e` denotes, `(+ a b)` is `Plus` of
/// what `a` and `b` denote), and none where an operand denotes none.
pub proof fn lemma_form_readings(v: Vec<Sexpr>)
    requires
        v@.len() >= 1,
    ensures
        v@.len() == 2 && is_symbol(v@[0], "add1"@) ==> parse_spec(Sexpr::List(v)) == match parse_spec(v@[1]) {
            Some(a) => Some(Expr::Add1(Box::new(a))),
            None => None,
        },
        v@.len() == 2 && is_symbol(v@[0], "sub1"@) ==> parse_spec(Sexpr::List(v)) == match parse_spec(v@[1]) {
            Some(a) => Some(Expr::Sub1(Box::new(a))),
            None => None,
        },
        v@.len() == 2 && is_symbol(v@[0], "negate"@) ==> parse_spec(Sexpr::List(v)) == match parse_spec(v@[1]) {
            Some(a) => Some(Expr::Neg(Box::new(a))),
            None => None,
        },
{
    reveal_strlit("add1");
    reveal_strlit("sub1");
    reveal_strlit("negate");
    assert("add1"@[0] != "sub1"@[0]);
    assert("add1"@.len() == 4);
    assert("sub1"@.len() == 4);
    assert("negate"@.len() == 6);
}

} // verus!
