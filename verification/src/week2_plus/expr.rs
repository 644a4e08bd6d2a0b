//! Expressions of the second stage and their parser.
use vstd::prelude::*;
use crate::sexpr::{is_symbol, small_int, symbol_is, Atom, Sexpr};

verus! {

#[derive(Debug)]
pub enum Expr {
    Num(i32),
    Add1(Box<Expr>),
    Sub1(Box<Expr>),
    Neg(Box<Expr>),
    Var(String),
    Let(String, Box<Expr>, Box<Expr>),
    Plus(Box<Expr>, Box<Expr>),
}

pub fn num(n: i32) -> (e: Expr)
    ensures
        e == Expr::Num(n),
{
    Expr::Num(n)
}

pub fn add1(e: Expr) -> (r: Expr)
    ensures
        r == Expr::Add1(Box::new(e)),
{
    Expr::Add1(Box::new(e))
}

pub fn sub1(e: Expr) -> (r: Expr)
    ensures
        r == Expr::Sub1(Box::new(e)),
{
    Expr::Sub1(Box::new(e))
}

pub fn negate(e: Expr) -> (r: Expr)
    ensures
        r == Expr::Neg(Box::new(e)),
{
    Expr::Neg(Box::new(e))
}

/// `(add1 (sub1 5))`
pub fn expr0() -> (e: Expr)
    ensures
        e == Expr::Add1(Box::new(Expr::Sub1(Box::new(Expr::Num(5))))),
{
    add1(sub1(num(5)))
}

/// `(negate (add1 5))`
pub fn expr1() -> (e: Expr)
    ensures
        e == Expr::Neg(Box::new(Expr::Add1(Box::new(Expr::Num(5))))),
{
    negate(add1(num(5)))
}

pub fn plus(e1: Expr, e2: Expr) -> (r: Expr)
    ensures
        r == Expr::Plus(Box::new(e1), Box::new(e2)),
{
    Expr::Plus(Box::new(e1), Box::new(e2))
}

/// The expression that an s-expression denotes, or `None` where it is not
/// one: an integer that fits in `i32`, a symbol (a variable), or a list of
/// `add1`, `sub1`, `negate`, `+` or `let` with its operands.
pub open spec fn parse_spec(s: Sexpr) -> Option<Expr>
    decreases s,
{
    match s {
        Sexpr::Atom(Atom::I(n)) => if small_int(n) {
            Some(Expr::Num(n as i32))
        } else {
            None
        },
        Sexpr::Atom(Atom::S(x)) => Some(Expr::Var(x)),
        Sexpr::Atom(Atom::F) => None,
        Sexpr::List(v) => if v@.len() == 2 && is_symbol(v@[0], "add1"@) {
            match parse_spec(v@[1]) {
                Some(e) => Some(Expr::Add1(Box::new(e))),
                None => None,
            }
        } else if v@.len() == 2 && is_symbol(v@[0], "sub1"@) {
            match parse_spec(v@[1]) {
                Some(e) => Some(Expr::Sub1(Box::new(e))),
                None => None,
            }
        } else if v@.len() == 2 && is_symbol(v@[0], "negate"@) {
            match parse_spec(v@[1]) {
                Some(e) => Some(Expr::Neg(Box::new(e))),
                None => None,
            }
        } else if v@.len() == 3 && is_symbol(v@[0], "+"@) {
            match (parse_spec(v@[1]), parse_spec(v@[2])) {
                (Some(a), Some(b)) => Some(Expr::Plus(Box::new(a), Box::new(b))),
                _ => None,
            }
        } else if v@.len() == 3 && is_symbol(v@[0], "let"@) {
            match v@[1] {
                Sexpr::List(bind) => if bind@.len() == 2 {
                    match bind@[0] {
                        Sexpr::Atom(Atom::S(x)) => match (parse_spec(bind@[1]), parse_spec(v@[2])) {
                            (Some(a), Some(b)) => Some(Expr::Let(x, Box::new(a), Box::new(b))),
                            _ => None,
                        },
                        _ => None,
                    }
                } else {
                    None
                },
                _ => None,
            }
        } else {
            None
        },
    }
}

/// Reads the binding `(x e)` of a `let`.
fn parse_bind(s: &Sexpr) -> (r: (String, Expr))
    requires
        s matches Sexpr::List(b) && b@.len() == 2 && b@[0] is Atom && (b@[0]->Atom_0 is S)
            && parse_spec(b@[1]) is Some,
    ensures
        s matches Sexpr::List(b) && b@[0] == Sexpr::Atom(Atom::S(r.0)) && parse_spec(b@[1]) == Some(
            r.1,
        ),
    decreases s,
{
    match s {
        Sexpr::List(b) => match &b[0] {
            Sexpr::Atom(Atom::S(x)) => (x.clone(), parse_expr(&b[1])),
            _ => {
                proof {
                    assert(false);
                }
                (String::new(), num(0))
            },
        },
        _ => {
            proof {
                assert(false);
            }
            (String::new(), num(0))
        },
    }
}

/// Parses an expression; the s-expressions that denote none are left out.
pub fn parse_expr(s: &Sexpr) -> (e: Expr)
    requires
        parse_spec(*s) is Some,
    ensures
        parse_spec(*s) == Some(e),
    decreases s,
{
    match s {
        Sexpr::Atom(Atom::I(n)) => num(*n as i32),
        Sexpr::Atom(Atom::S(x)) => Expr::Var(x.clone()),
        Sexpr::List(vec) => {
            if vec.len() == 2 && symbol_is(&vec[0], "add1") {
                add1(parse_expr(&vec[1]))
            } else if vec.len() == 2 && symbol_is(&vec[0], "sub1") {
                sub1(parse_expr(&vec[1]))
            } else if vec.len() == 2 && symbol_is(&vec[0], "negate") {
                negate(parse_expr(&vec[1]))
            } else if vec.len() == 3 && symbol_is(&vec[0], "+") {
                let a = parse_expr(&vec[1]);
                let b = parse_expr(&vec[2]);
                plus(a, b)
            } else {
                let (x, e1) = parse_bind(&vec[1]);
                let e2 = parse_expr(&vec[2]);
                Expr::Let(x, Box::new(e1), Box::new(e2))
            }
        },
        _ => {
            proof {
                assert(false);
            }
            num(0)
        },
    }
}

/// Whether `s` denotes an expression.
pub fn parsable(s: &Sexpr) -> (r: bool)
    ensures
        r == parse_spec(*s) is Some,
    decreases s,
{
    match s {
        Sexpr::Atom(Atom::I(n)) => i32::MIN as i64 <= *n && *n <= i32::MAX as i64,
        Sexpr::Atom(Atom::S(_)) => true,
        Sexpr::Atom(Atom::F) => false,
        Sexpr::List(vec) => {
            if vec.len() == 2 && symbol_is(&vec[0], "add1") {
                parsable(&vec[1])
            } else if vec.len() == 2 && symbol_is(&vec[0], "sub1") {
                parsable(&vec[1])
            } else if vec.len() == 2 && symbol_is(&vec[0], "negate") {
                parsable(&vec[1])
            } else if vec.len() == 3 && symbol_is(&vec[0], "+") {
                parsable(&vec[1]) && parsable(&vec[2])
            } else if vec.len() == 3 && symbol_is(&vec[0], "let") {
                match &vec[1] {
                    Sexpr::List(bind) => bind.len() == 2 && matches!(&bind[0], Sexpr::Atom(Atom::S(_)))
                        && parsable(&bind[1]) && parsable(&vec[2]),
                    _ => false,
                }
            } else {
                false
            }
        },
    }
}


/// What the reader makes of each form: a list headed by the symbol of an
/// operator denotes that operator's expression over what its operands
/// denote (`(negate e)` is `Neg` of what `e` denotes, `(+ a b)` is `Plus` of
/// what `a` and `b` denote), and none where an operand denotes none.
pub proof fn lemma_form_readings(v: Vec<Sexpr>)
    requires
        v@.len() >= 1,
    ensures
        v@.len() == 2 && is_symbol(v@[0], "add1"@) ==> parse_spec(Sexpr::List(v)) == match parse_spec(v@[1]) {
            Some(a) => Some(Expr::Add1(Box::new(a))),
            None => None,
        },
        v@.len() == 2 && is_symbol(v@[0], "sub1"@) ==> parse_spec(Sexpr::List(v)) == match parse_spec(v@[1]) {
            Some(a) => Some(Expr::Sub1(Box::new(a))),
            None => None,
        },
        v@.len() == 2 && is_symbol(v@[0], "negate"@) ==> parse_spec(Sexpr::List(v)) == match parse_spec(v@[1]) {
            Some(a) => Some(Expr::Neg(Box::new(a))),
            None => None,
        },
        v@.len() == 3 && is_symbol(v@[0], "+"@) ==> parse_spec(Sexpr::List(v)) == match (parse_spec(v@[1]), parse_spec(v@[2])) {
            (Some(a), Some(b)) => Some(Expr::Plus(Box::new(a), Box::new(b))),
            _ => None,
        },
        (v@.len() == 3 && is_symbol(v@[0], "let"@) && (v@[1] matches Sexpr::List(bd) && bd@.len() == 2 && bd@[0] matches Sexpr::Atom(Atom::S(x)))) ==> parse_spec(Sexpr::List(v)) == match (parse_spec(v@[1]->List_0@[1]), parse_spec(v@[2])) {
            (Some(a), Some(b)) => Some(Expr::Let(v@[1]->List_0@[0]->Atom_0->S_0, Box::new(a), Box::new(b))),
            _ => None,
        },
{
    reveal_strlit("add1");
    reveal_strlit("sub1");
    reveal_strlit("negate");
    reveal_strlit("+");
    reveal_strlit("let");
    assert("add1"@[0] != "sub1"@[0]);
    assert("add1"@.len() == 4);
    assert("sub1"@.len() == 4);
    assert("negate"@.len() == 6);
    assert("+"@.len() == 1);
    assert("let"@.len() == 3);
}

} // verus!
