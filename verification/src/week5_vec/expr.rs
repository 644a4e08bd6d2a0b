//! Programs of the fifth stage and their parser.
use vstd::prelude::*;
use crate::sexpr::{is_any_symbol, is_symbol, read_sexp, sexp_parse, small_int, symbol_is, Atom, Sexpr};
use crate::text::is_word;

verus! {

/// A program: function definitions, then the expression to run.
#[derive(Debug)]
pub struct Prog {
    pub defs: Vec<Defn>,
    pub expr: Box<Expr>,
}

/// A function definition of one or two parameters: its name, its parameters
/// and its body.
#[derive(Debug)]
pub enum Defn {
    Fun1(String, String, Box<Expr>),
    Fun2(String, String, String, Box<Expr>),
}

#[derive(Debug)]
pub enum Expr {
    Num(i32),
    Add1(Box<Expr>),
    Sub1(Box<Expr>),
    Neg(Box<Expr>),
    Var(String),
    Let(String, Box<Expr>, Box<Expr>),
    Plus(Box<Expr>, Box<Expr>),
    Mult(Box<Expr>, Box<Expr>),
    Input,
    True,
    False,
    If(Box<Expr>, Box<Expr>, Box<Expr>),
    Eq(Box<Expr>, Box<Expr>),
    Le(Box<Expr>, Box<Expr>),
    Assign(String, Box<Expr>),
    Block(Vec<Expr>),
    Loop(Box<Expr>),
    Break(Box<Expr>),
    Print(Box<Expr>),
    Call1(String, Box<Expr>),
    Call2(String, Box<Expr>, Box<Expr>),
    Vec(Box<Expr>, Box<Expr>),
    Get(Box<Expr>, Index),
}

/// Which component of a pair `vec-get` reads.
#[derive(Debug)]
pub enum Index {
    Zero,
    One,
}

pub fn num(n: i32) -> (e: Expr)
    ensures
        e == Expr::Num(n),
{
    Expr::Num(n)
}

pub fn add1(e: Expr) -> (r: Expr)
    ensures
        r == Expr::Add1(Box::new(e)),
{
    Expr::Add1(Box::new(e))
}

pub fn sub1(e: Expr) -> (r: Expr)
    ensures
        r == Expr::Sub1(Box::new(e)),
{
    Expr::Sub1(Box::new(e))
}

pub fn negate(e: Expr) -> (r: Expr)
    ensures
        r == Expr::Neg(Box::new(e)),
{
    Expr::Neg(Box::new(e))
}

/// `(add1 (sub1 5))`
pub fn expr0() -> (e: Expr)
    ensures
        e == Expr::Add1(Box::new(Expr::Sub1(Box::new(Expr::Num(5))))),
{
    add1(sub1(num(5)))
}

/// `(negate (add1 5))`
pub fn expr1() -> (e: Expr)
    ensures
        e == Expr::Neg(Box::new(Expr::Add1(Box::new(Expr::Num(5))))),
{
    negate(add1(num(5)))
}

pub fn plus(e1: Expr, e2: Expr) -> (r: Expr)
    ensures
        r == Expr::Plus(Box::new(e1), Box::new(e2)),
{
    Expr::Plus(Box::new(e1), Box::new(e2))
}

pub fn mult(e1: Expr, e2: Expr) -> (r: Expr)
    ensures
        r == Expr::Mult(Box::new(e1), Box::new(e2)),
{
    Expr::Mult(Box::new(e1), Box::new(e2))
}

pub fn eq(e1: Expr, e2: Expr) -> (r: Expr)
    ensures
        r == Expr::Eq(Box::new(e1), Box::new(e2)),
{
    Expr::Eq(Box::new(e1), Box::new(e2))
}

pub fn le(e1: Expr, e2: Expr) -> (r: Expr)
    ensures
        r == Expr::Le(Box::new(e1), Box::new(e2)),
{
    Expr::Le(Box::new(e1), Box::new(e2))
}

pub fn ite(e1: Expr, e2: Expr, e3: Expr) -> (r: Expr)
    ensures
        r == Expr::If(Box::new(e1), Box::new(e2), Box::new(e3)),
{
    Expr::If(Box::new(e1), Box::new(e2), Box::new(e3))
}

/// The form of a list that starts with a symbol, in the order in which the
/// parser tries them.
pub enum Form {
    Add1,
    Sub1,
    Neg,
    Loop,
    Print,
    Break,
    Plus,
    Mult,
    Eq,
    Le,
    If,
    Let,
    Assign,
    Block,
    Vec,
    Get,
    Call1,
    Call2,
    Bad,
}

/// The form of a list whose head is the symbol `op`.
pub open spec fn op_form(op: Seq<char>, v: Seq<Sexpr>) -> Form {
    let n = v.len();
    if n == 2 && op == "add1"@ {
        Form::Add1
    } else if n == 2 && op == "sub1"@ {
        Form::Sub1
    } else if n == 2 && op == "negate"@ {
        Form::Neg
    } else if n == 2 && op == "loop"@ {
        Form::Loop
    } else if n == 2 && op == "print"@ {
        Form::Print
    } else if n == 2 && op == "break"@ {
        Form::Break
    } else if n == 3 && op == "+"@ {
        Form::Plus
    } else if n == 3 && op == "*"@ {
        Form::Mult
    } else if n == 3 && op == "="@ {
        Form::Eq
    } else if n == 3 && op == "<="@ {
        Form::Le
    } else if n == 4 && op == "if"@ {
        Form::If
    } else if n == 3 && op == "let"@ {
        Form::Let
    } else if n == 3 && op == "set!"@ && is_any_symbol(v[1]) {
        Form::Assign
    } else if op == "block"@ {
        Form::Block
    } else if n == 3 && op == "vec"@ {
        Form::Vec
    } else if n == 3 && op == "vec-get"@ {
        Form::Get
    } else if n == 2 {
        Form::Call1
    } else if n == 3 {
        Form::Call2
    } else {
        Form::Bad
    }
}

/// The form of a list: `Bad` unless it starts with a symbol.
pub open spec fn list_form(v: Seq<Sexpr>) -> Form {
    if v.len() == 0 {
        Form::Bad
    } else {
        match v[0] {
            Sexpr::Atom(Atom::S(op)) => op_form(op@, v),
            _ => Form::Bad,
        }
    }
}

fn form_of(v: &Vec<Sexpr>) -> (f: Form)
    ensures
        f == list_form(v@),
{
    if v.len() == 0 {
        return Form::Bad;
    }
    match &v[0] {
        Sexpr::Atom(Atom::S(op)) => {
            let n = v.len();
            if n == 2 && is_word(op, "add1") {
                Form::Add1
            } else if n == 2 && is_word(op, "sub1") {
                Form::Sub1
            } else if n == 2 && is_word(op, "negate") {
                Form::Neg
            } else if n == 2 && is_word(op, "loop") {
                Form::Loop
            } else if n == 2 && is_word(op, "print") {
                Form::Print
            } else if n == 2 && is_word(op, "break") {
                Form::Break
            } else if n == 3 && is_word(op, "+") {
                Form::Plus
            } else if n == 3 && is_word(op, "*") {
                Form::Mult
            } else if n == 3 && is_word(op, "=") {
                Form::Eq
            } else if n == 3 && is_word(op, "<=") {
                Form::Le
            } else if n == 4 && is_word(op, "if") {
                Form::If
            } else if n == 3 && is_word(op, "let") {
                Form::Let
            } else if n == 3 && is_word(op, "set!") && matches!(&v[1], Sexpr::Atom(Atom::S(_))) {
                Form::Assign
            } else if is_word(op, "block") {
                Form::Block
            } else if n == 3 && is_word(op, "vec") {
                Form::Vec
            } else if n == 3 && is_word(op, "vec-get") {
                Form::Get
            } else if n == 2 {
                Form::Call1
            } else if n == 3 {
                Form::Call2
            } else {
                Form::Bad
            }
        },
        _ => Form::Bad,
    }
}

/// The index that `s` denotes: the symbols `0` and `1`.
pub open spec fn index_of(s: Sexpr) -> Option<Index> {
    if is_symbol(s, "0"@) {
        Some(Index::Zero)
    } else if is_symbol(s, "1"@) {
        Some(Index::One)
    } else {
        None
    }
}

/// Whether the parser accepts `s` as an expression.
pub open spec fn parsable(s: Sexpr) -> bool
    decreases s,
{
    match s {
        Sexpr::Atom(Atom::I(n)) => small_int(n),
        Sexpr::Atom(Atom::S(_)) => true,
        Sexpr::Atom(Atom::F) => false,
        Sexpr::List(v) => match list_form(v@) {
            Form::Add1 | Form::Sub1 | Form::Neg | Form::Loop | Form::Print | Form::Break
            | Form::Call1 => parsable(v@[1]),
            Form::Plus | Form::Mult | Form::Eq | Form::Le | Form::Vec | Form::Call2 => parsable(
                v@[1],
            ) && parsable(v@[2]),
            Form::If => parsable(v@[1]) && parsable(v@[2]) && parsable(v@[3]),
            Form::Let => match v@[1] {
                Sexpr::List(b) => b@.len() == 2 && is_any_symbol(b@[0]) && parsable(b@[1])
                    && parsable(v@[2]),
                _ => false,
            },
            Form::Assign => parsable(v@[2]),
            Form::Block => all_parsable(v@.skip(1)),
            Form::Get => parsable(v@[1]) && index_of(v@[2]) is Some,
            Form::Bad => false,
        },
    }
}

/// Whether the parser accepts every s-expression of `ss`.
pub open spec fn all_parsable(ss: Seq<Sexpr>) -> bool
    decreases ss,
{
    if ss.len() == 0 {
        true
    } else {
        all_parsable(ss.drop_last()) && parsable(ss.last())
    }
}


/// Whether the parser reads `s` as the expression `e`.
pub open spec fn parses(s: Sexpr, e: Expr) -> bool
    decreases s,
{
    match s {
        Sexpr::Atom(Atom::I(n)) => small_int(n) && e == Expr::Num(n as i32),
        Sexpr::Atom(Atom::S(x)) => if x@ == "input"@ {
            e == Expr::Input
        } else if x@ == "true"@ {
            e == Expr::True
        } else if x@ == "false"@ {
            e == Expr::False
        } else {
            e == Expr::Var(x)
        },
        Sexpr::Atom(Atom::F) => false,
        Sexpr::List(v) => match list_form(v@) {
            Form::Add1 => e matches Expr::Add1(a) && parses(v@[1], *a),
            Form::Sub1 => e matches Expr::Sub1(a) && parses(v@[1], *a),
            Form::Neg => e matches Expr::Neg(a) && parses(v@[1], *a),
            Form::Loop => e matches Expr::Loop(a) && parses(v@[1], *a),
            Form::Print => e matches Expr::Print(a) && parses(v@[1], *a),
            Form::Break => e matches Expr::Break(a) && parses(v@[1], *a),
            Form::Plus => e matches Expr::Plus(a, b) && parses(v@[1], *a) && parses(v@[2], *b),
            Form::Mult => e matches Expr::Mult(a, b) && parses(v@[1], *a) && parses(v@[2], *b),
            Form::Eq => e matches Expr::Eq(a, b) && parses(v@[1], *a) && parses(v@[2], *b),
            Form::Le => e matches Expr::Le(a, b) && parses(v@[1], *a) && parses(v@[2], *b),
            Form::If => e matches Expr::If(a, b, c) && parses(v@[1], *a) && parses(v@[2], *b)
                && parses(v@[3], *c),
            Form::Let => match v@[1] {
                Sexpr::List(bind) => bind@.len() == 2 && (bind@[0] matches Sexpr::Atom(Atom::S(x))
                    && e matches Expr::Let(y, a, b) && y == x && parses(bind@[1], *a) && parses(
                    v@[2],
                    *b,
                )),
                _ => false,
            },
            Form::Assign => v@[1] matches Sexpr::Atom(Atom::S(x)) && e matches Expr::Assign(y, a)
                && y == x && parses(v@[2], *a),
            Form::Block => e matches Expr::Block(es) && all_parse(v@.skip(1), es@),
            Form::Vec => e matches Expr::Vec(a, b) && parses(v@[1], *a) && parses(v@[2], *b),
            Form::Get => e matches Expr::Get(a, i) && parses(v@[1], *a) && index_of(v@[2]) == Some(
                i,
            ),
            Form::Call1 => v@[0] matches Sexpr::Atom(Atom::S(f)) && e matches Expr::Call1(g, a)
                && g == f && parses(v@[1], *a),
            Form::Call2 => v@[0] matches Sexpr::Atom(Atom::S(f)) && e matches Expr::Call2(g, a, b)
                && g == f && parses(v@[1], *a) && parses(v@[2], *b),
            Form::Bad => false,
        },
    }
}

/// Whether the parser reads the s-expressions `ss` as the expressions `es`,
/// one for one.
pub open spec fn all_parse(ss: Seq<Sexpr>, es: Seq<Expr>) -> bool
    decreases ss,
{
    ss.len() == es.len() && (ss.len() == 0 || (all_parse(ss.drop_last(), es.drop_last())
        && parses(ss.last(), es.last())))
}

proof fn lemma_all_parsable(ss: Seq<Sexpr>)
    ensures
        all_parsable(ss) <==> forall|j: int| 0 <= j < ss.len() ==> parsable(#[trigger] ss[j]),
    decreases ss.len(),
{
    if ss.len() > 0 {
        lemma_all_parsable(ss.drop_last());
        assert forall|j: int| 0 <= j < ss.len() - 1 implies ss.drop_last()[j] == ss[j] by {}
    }
}

proof fn lemma_all_parse(ss: Seq<Sexpr>, es: Seq<Expr>)
    ensures
        all_parse(ss, es) <==> ss.len() == es.len() && forall|j: int|
            0 <= j < ss.len() ==> parses(#[trigger] ss[j], es[j]),
    decreases ss.len(),
{
    if ss.len() > 0 && ss.len() == es.len() {
        lemma_all_parse(ss.drop_last(), es.drop_last());
        assert forall|j: int| 0 <= j < ss.len() - 1 implies ss.drop_last()[j] == ss[j]
            && es.drop_last()[j] == es[j] by {}
    }
}

fn parse_index(s: &Sexpr) -> (r: Option<Index>)
    ensures
        r == index_of(*s),
{
    if symbol_is(s, "0") {
        Some(Index::Zero)
    } else if symbol_is(s, "1") {
        Some(Index::One)
    } else {
        None
    }
}

/// Reads a symbol.
fn read_ident(s: &Sexpr) -> (r: Option<String>)
    ensures
        r is Some <==> is_any_symbol(*s),
        r matches Some(x) ==> *s == Sexpr::Atom(Atom::S(x)),
{
    match s {
        Sexpr::Atom(Atom::S(x)) => Some(x.clone()),
        _ => None,
    }
}

/// Reads the binding `(x e)` of a `let`.
fn read_bind(s: &Sexpr) -> (r: Option<(String, Expr)>)
    ensures
        r is Some <==> (s matches Sexpr::List(b) && b@.len() == 2 && is_any_symbol(b@[0])
            && parsable(b@[1])),
        r matches Some((x, e)) ==> s matches Sexpr::List(b) && b@[0] == Sexpr::Atom(Atom::S(x))
            && parses(b@[1], e),
    decreases s,
{
    match s {
        Sexpr::List(b) => {
            if b.len() != 2 {
                return None;
            }
            let x = read_ident(&b[0])?;
            let e = read_expr(&b[1])?;
            Some((x, e))
        },
        _ => None,
    }
}

/// Reads an expression, or says that the parser rejects it (`None`).
pub fn read_expr(s: &Sexpr) -> (r: Option<Expr>)
    ensures
        r is Some <==> parsable(*s),
        r matches Some(e) ==> parses(*s, e),
    decreases s,
{
    match s {
        Sexpr::Atom(Atom::I(n)) => {
            if i32::MIN as i64 <= *n && *n <= i32::MAX as i64 {
                Some(num(*n as i32))
            } else {
                None
            }
        },
        Sexpr::Atom(Atom::S(x)) => {
            if is_word(x, "input") {
                Some(Expr::Input)
            } else if is_word(x, "true") {
                Some(Expr::True)
            } else if is_word(x, "false") {
                Some(Expr::False)
            } else {
                Some(Expr::Var(x.clone()))
            }
        },
        Sexpr::Atom(Atom::F) => None,
        Sexpr::List(v) => {
            let f = form_of(v);
            match f {
                Form::Add1 => Some(add1(read_expr(&v[1])?)),
                Form::Sub1 => Some(sub1(read_expr(&v[1])?)),
                Form::Neg => Some(negate(read_expr(&v[1])?)),
                Form::Loop => Some(Expr::Loop(Box::new(read_expr(&v[1])?))),
                Form::Print => Some(Expr::Print(Box::new(read_expr(&v[1])?))),
                Form::Break => Some(Expr::Break(Box::new(read_expr(&v[1])?))),
                Form::Plus => {
                    let a = read_expr(&v[1])?;
                    let b = read_expr(&v[2])?;
                    Some(plus(a, b))
                },
                Form::Mult => {
                    let a = read_expr(&v[1])?;
                    let b = read_expr(&v[2])?;
                    Some(mult(a, b))
                },
                Form::Eq => {
                    let a = read_expr(&v[1])?;
                    let b = read_expr(&v[2])?;
                    Some(eq(a, b))
                },
                Form::Le => {
                    let a = read_expr(&v[1])?;
                    let b = read_expr(&v[2])?;
                    Some(le(a, b))
                },
                Form::If => {
                    let a = read_expr(&v[1])?;
                    let b = read_expr(&v[2])?;
                    let c = read_expr(&v[3])?;
                    Some(ite(a, b, c))
                },
                Form::Let => {
                    let (x, e1) = read_bind(&v[1])?;
                    let e2 = read_expr(&v[2])?;
                    Some(Expr::Let(x, Box::new(e1), Box::new(e2)))
                },
                Form::Assign => {
                    let x = read_ident(&v[1])?;
                    let e = read_expr(&v[2])?;
                    Some(Expr::Assign(x, Box::new(e)))
                },
                Form::Block => {
                    let mut es: Vec<Expr> = Vec::new();
                    let mut i: usize = 1;
                    proof {
                        lemma_all_parsable(v@.skip(1));
                    }
                    while i < v.len()
                        invariant
                            *s == Sexpr::List(*v),
                            list_form(v@) == Form::Block,
                            1 <= i <= v@.len(),
                            es@.len() == i - 1,
                            forall|j: int| 1 <= j < i ==> parsable(#[trigger] v@[j]),
                            forall|j: int| 1 <= j < i ==> parses(#[trigger] v@[j], es@[j - 1]),
                        decreases v@.len() - i,
                    {
                        proof {
                                assert(decreases_to!(*v => v[i as int]));
                                assert(decreases_to!(*s => (*s)->List_0));
                                assert(decreases_to!(*s => v@[i as int]));
                        }
                        match read_expr(&v[i]) {
                            Some(e) => {
                                es.push(e);
                            },
                            None => {
                                proof {
                                    assert(v@.skip(1)[i - 1] == v@[i as int]);
                                    lemma_all_parsable(v@.skip(1));
                                }
                                return None;
                            },
                        }
                        i = i + 1;
                    }
                    proof {
                        assert forall|j: int| 0 <= j < v@.skip(1).len() implies parsable(
                            #[trigger] v@.skip(1)[j],
                        ) by {
                            assert(v@.skip(1)[j] == v@[j + 1]);
                        }
                        assert forall|j: int| 0 <= j < v@.skip(1).len() implies parses(
                            #[trigger] v@.skip(1)[j],
                            es@[j],
                        ) by {
                            assert(v@.skip(1)[j] == v@[j + 1]);
                        }
                        lemma_all_parse(v@.skip(1), es@);
                    }
                    Some(Expr::Block(es))
                },
                Form::Vec => {
                    let a = read_expr(&v[1])?;
                    let b = read_expr(&v[2])?;
                    Some(Expr::Vec(Box::new(a), Box::new(b)))
                },
                Form::Get => {
                    let a = read_expr(&v[1])?;
                    let i = parse_index(&v[2])?;
                    Some(Expr::Get(Box::new(a), i))
                },
                Form::Call1 => {
                    let f = read_ident(&v[0])?;
                    let a = read_expr(&v[1])?;
                    Some(Expr::Call1(f, Box::new(a)))
                },
                Form::Call2 => {
                    let f = read_ident(&v[0])?;
                    let a = read_expr(&v[1])?;
                    let b = read_expr(&v[2])?;
                    Some(Expr::Call2(f, Box::new(a), Box::new(b)))
                },
                Form::Bad => None,
            }
        },
    }
}



/// Parses a symbol; s-expressions that are no symbol are left out.
fn parse_ident(s: &Sexpr) -> (x: String)
    requires
        is_any_symbol(*s),
    ensures
        *s == Sexpr::Atom(Atom::S(x)),
{
    match s {
        Sexpr::Atom(Atom::S(x)) => x.clone(),
        _ => unreached(),
    }
}

/// Whether `s` is a binding `(x e)` that the parser accepts.
pub open spec fn bind_parsable(s: Sexpr) -> bool {
    s matches Sexpr::List(b) && b@.len() == 2 && is_any_symbol(b@[0]) && parsable(b@[1])
}

/// Parses the binding `(x e)` of a `let`; other s-expressions are left out.
fn parse_bind(s: &Sexpr) -> (r: (String, Expr))
    requires
        bind_parsable(*s),
    ensures
        s matches Sexpr::List(b) && b@[0] == Sexpr::Atom(Atom::S(r.0)) && parses(b@[1], r.1),
    decreases s,
{
    match s {
        Sexpr::List(b) => {
            proof {
                assert(decreases_to!(*s => (*s)->List_0));
                assert(decreases_to!(*b => b@[1]));
            }
            let x = parse_ident(&b[0]);
            let e = parse_expr(&b[1]);
            (x, e)
        },
        _ => unreached(),
    }
}

/// Parses an expression; the s-expressions that it rejects are left out.
pub fn parse_expr(s: &Sexpr) -> (e: Expr)
    requires
        parsable(*s),
    ensures
        parses(*s, e),
    decreases s,
{
    match s {
        Sexpr::Atom(Atom::I(n)) => num(*n as i32),
        Sexpr::Atom(Atom::S(x)) => {
            if is_word(x, "input") {
                Expr::Input
            } else if is_word(x, "true") {
                Expr::True
            } else if is_word(x, "false") {
                Expr::False
            } else {
                Expr::Var(x.clone())
            }
        },
        Sexpr::Atom(Atom::F) => unreached(),
        Sexpr::List(v) => {
            let f = form_of(v);
            match f {
                Form::Add1 => add1(parse_expr(&v[1])),
                Form::Sub1 => sub1(parse_expr(&v[1])),
                Form::Neg => negate(parse_expr(&v[1])),
                Form::Loop => Expr::Loop(Box::new(parse_expr(&v[1]))),
                Form::Print => Expr::Print(Box::new(parse_expr(&v[1]))),
                Form::Break => Expr::Break(Box::new(parse_expr(&v[1]))),
                Form::Plus => {
                    let a = parse_expr(&v[1]);
                    let b = parse_expr(&v[2]);
                    plus(a, b)
                },
                Form::Mult => {
                    let a = parse_expr(&v[1]);
                    let b = parse_expr(&v[2]);
                    mult(a, b)
                },
                Form::Eq => {
                    let a = parse_expr(&v[1]);
                    let b = parse_expr(&v[2]);
                    eq(a, b)
                },
                Form::Le => {
                    let a = parse_expr(&v[1]);
                    let b = parse_expr(&v[2]);
                    le(a, b)
                },
                Form::If => {
                    let a = parse_expr(&v[1]);
                    let b = parse_expr(&v[2]);
                    let c = parse_expr(&v[3]);
                    ite(a, b, c)
                },
                Form::Let => {
                    let (x, e1) = parse_bind(&v[1]);
                    let e2 = parse_expr(&v[2]);
                    Expr::Let(x, Box::new(e1), Box::new(e2))
                },
                Form::Assign => {
                    let x = parse_ident(&v[1]);
                    let e = parse_expr(&v[2]);
                    Expr::Assign(x, Box::new(e))
                },
                Form::Block => {
                    let mut es: Vec<Expr> = Vec::new();
                    let mut i: usize = 1;
                    proof {
                        lemma_all_parsable(v@.skip(1));
                        assert forall|j: int| 1 <= j < v@.len() implies parsable(#[trigger] v@[j]) by {
                            assert(v@.skip(1)[j - 1] == v@[j]);
                        }
                    }
                    while i < v.len()
                        invariant
                            *s == Sexpr::List(*v),
                            list_form(v@) == Form::Block,
                            1 <= i <= v@.len(),
                            es@.len() == i - 1,
                            forall|j: int| 1 <= j < v@.len() ==> parsable(#[trigger] v@[j]),
                            forall|j: int| 1 <= j < i ==> parses(#[trigger] v@[j], es@[j - 1]),
                        decreases v@.len() - i,
                    {
                        proof {
                            assert(decreases_to!(*v => v[i as int]));
                            assert(decreases_to!(*s => (*s)->List_0));
                            assert(decreases_to!(*s => v@[i as int]));
                        }
                        let e = parse_expr(&v[i]);
                        es.push(e);
                        i = i + 1;
                    }
                    proof {
                        assert forall|j: int| 0 <= j < v@.skip(1).len() implies parses(
                            #[trigger] v@.skip(1)[j],
                            es@[j],
                        ) by {
                            assert(v@.skip(1)[j] == v@[j + 1]);
                        }
                        lemma_all_parse(v@.skip(1), es@);
                    }
                    Expr::Block(es)
                },
                Form::Vec => {
                    let a = parse_expr(&v[1]);
                    let b = parse_expr(&v[2]);
                    Expr::Vec(Box::new(a), Box::new(b))
                },
                Form::Get => {
                    let a = parse_expr(&v[1]);
                    match parse_index(&v[2]) {
                        Some(i) => Expr::Get(Box::new(a), i),
                        None => unreached(),
                    }
                },
                Form::Call1 => {
                    let f = parse_ident(&v[0]);
                    let a = parse_expr(&v[1]);
                    Expr::Call1(f, Box::new(a))
                },
                Form::Call2 => {
                    let f = parse_ident(&v[0]);
                    let a = parse_expr(&v[1]);
                    let b = parse_expr(&v[2]);
                    Expr::Call2(f, Box::new(a), Box::new(b))
                },
                Form::Bad => unreached(),
            }
        },
    }
}

/// Whether the parser accepts `s` as a definition `(defn (f x) e)` or
/// `(defn (f x y) e)`.
pub open spec fn defn_parsable(s: Sexpr) -> bool {
    s matches Sexpr::List(es) && es@.len() == 3 && is_symbol(es@[0], "defn"@) && (
    es@[1] matches Sexpr::List(xs) && xs@.len() >= 1 && is_any_symbol(xs@[0]) && parsable(es@[2])
        && ((xs@.len() == 2 && is_any_symbol(xs@[1])) || (xs@.len() == 3 && is_any_symbol(xs@[1])
        && is_any_symbol(xs@[2]))))
}

/// Whether the parser reads `s` as the definition `d`.
pub open spec fn parses_defn(s: Sexpr, d: Defn) -> bool {
    s matches Sexpr::List(es) && es@.len() == 3 && is_symbol(es@[0], "defn"@) && (
    es@[1] matches Sexpr::List(xs) && xs@.len() >= 1 && (xs@[0] matches Sexpr::Atom(
        Atom::S(name),
    ) && if xs@.len() == 2 {
        xs@[1] matches Sexpr::Atom(Atom::S(x)) && d matches Defn::Fun1(f, p, body) && f == name
            && p == x && parses(es@[2], *body)
    } else {
        xs@.len() == 3 && (xs@[1] matches Sexpr::Atom(Atom::S(x1)) && xs@[2] matches Sexpr::Atom(
            Atom::S(x2),
        ) && d matches Defn::Fun2(f, p1, p2, body) && f == name && p1 == x1 && p2 == x2 && parses(
            es@[2],
            *body,
        ))
    }))
}

fn parse_defn_opt(s: &Sexpr) -> (r: Option<Defn>)
    ensures
        r is Some <==> defn_parsable(*s),
        r matches Some(d) ==> parses_defn(*s, d),
{
    let es = match s {
        Sexpr::List(es) => es,
        _ => {
            return None;
        },
    };
    if es.len() != 3 || !symbol_is(&es[0], "defn") {
        return None;
    }
    let xs = match &es[1] {
        Sexpr::List(xs) => xs,
        _ => {
            return None;
        },
    };
    if xs.len() == 0 {
        return None;
    }
    let body = Box::new(read_expr(&es[2])?);
    let name = read_ident(&xs[0])?;
    if xs.len() == 2 {
        let x = read_ident(&xs[1])?;
        Some(Defn::Fun1(name, x, body))
    } else if xs.len() == 3 {
        let x1 = read_ident(&xs[1])?;
        let x2 = read_ident(&xs[2])?;
        Some(Defn::Fun2(name, x1, x2, body))
    } else {
        None
    }
}

/// Parses a definition; the s-expressions that are none are left out.
pub fn parse_defn(s: &Sexpr) -> (d: Defn)
    requires
        defn_parsable(*s),
    ensures
        parses_defn(*s, d),
{
    match s {
        Sexpr::List(es) => match &es[1] {
            Sexpr::List(xs) => {
                let body = Box::new(parse_expr(&es[2]));
                let name = parse_ident(&xs[0]);
                if xs.len() == 2 {
                    Defn::Fun1(name, parse_ident(&xs[1]), body)
                } else {
                    Defn::Fun2(name, parse_ident(&xs[1]), parse_ident(&xs[2]), body)
                }
            },
            _ => unreached(),
        },
        _ => unreached(),
    }
}

/// Whether the parser accepts `s` as a program: a list of definitions
/// followed by one expression.
pub open spec fn prog_parsable(s: Sexpr) -> bool {
    s matches Sexpr::List(es) && es@.len() >= 1 && (forall|i: int|
        0 <= i < es@.len() - 1 ==> defn_parsable(#[trigger] es@[i])) && parsable(es@.last())
}

/// Whether the parser reads `s` as the program `p`.
pub open spec fn parses_prog(s: Sexpr, p: Prog) -> bool {
    s matches Sexpr::List(es) && es@.len() >= 1 && p.defs@.len() == es@.len() - 1 && (forall|i: int|
        0 <= i < es@.len() - 1 ==> parses_defn(#[trigger] es@[i], p.defs@[i])) && parses(
        es@.last(),
        *p.expr,
    )
}

/// Reads a program, or says that the parser rejects it (`None`).
pub fn read_prog(e: &Sexpr) -> (r: Option<Prog>)
    ensures
        r is Some <==> prog_parsable(*e),
        r matches Some(p) ==> parses_prog(*e, p),
{
    let es = match e {
        Sexpr::List(es) => es,
        _ => {
            return None;
        },
    };
    if es.len() == 0 {
        return None;
    }
    let n = es.len() - 1;
    let mut defs: Vec<Defn> = Vec::new();
    let mut i: usize = 0;
    while i < n
        invariant
            *e == Sexpr::List(*es),
            n == es@.len() - 1,
            i <= n,
            defs@.len() == i,
            forall|j: int| 0 <= j < i ==> defn_parsable(#[trigger] es@[j]),
            forall|j: int| 0 <= j < i ==> parses_defn(#[trigger] es@[j], defs@[j]),
        decreases n - i,
    {
        let d = parse_defn_opt(&es[i])?;
        defs.push(d);
        i = i + 1;
    }
    let expr = Box::new(read_expr(&es[n])?);
    Some(Prog { defs, expr })
}

/// Parses a program: a list of definitions followed by the main
/// expression; the s-expressions that are none are left out.
pub fn parse_prog(e: &Sexpr) -> (p: Prog)
    requires
        prog_parsable(*e),
    ensures
        parses_prog(*e, p),
{
    match e {
        Sexpr::List(es) => {
            let n = es.len() - 1;
            let mut defs: Vec<Defn> = Vec::new();
            let mut i: usize = 0;
            while i < n
                invariant
                    *e == Sexpr::List(*es),
                    prog_parsable(*e),
                    n == es@.len() - 1,
                    i <= n,
                    defs@.len() == i,
                    forall|j: int| 0 <= j < i ==> parses_defn(#[trigger] es@[j], defs@[j]),
                decreases n - i,
            {
                defs.push(parse_defn(&es[i]));
                i = i + 1;
            }
            let expr = Box::new(parse_expr(&es[n]));
            Prog { defs, expr }
        },
        _ => unreached(),
    }
}

/// The text that `parse` hands to the s-expression reader: the program in
/// one pair of parentheses.
pub open spec fn wrapped(text: Seq<char>) -> Seq<char> {
    "("@ + text + ")"@
}

/// Whether `parse` accepts the program text `text`.
pub open spec fn program_text_ok(text: Seq<char>) -> bool {
    sexp_parse(wrapped(text)) matches Some(t) && prog_parsable(t)
}

fn wrap(s: &str) -> (r: String)
    ensures
        r@ == wrapped(s@),
{
    let mut w = String::from_str("(");
    w.append(s);
    w.append(")");
    w
}

/// Parses the text of a program; texts that it rejects are left out.
pub fn parse(s: &str) -> (p: Prog)
    requires
        program_text_ok(s@),
    ensures
        sexp_parse(wrapped(s@)) matches Some(t) && parses_prog(t, p),
{
    let w = wrap(s);
    let t = read_sexp(w.as_str()).unwrap();
    parse_prog(&t)
}

/// Parses the text of a program, or says that `parse` rejects it.
pub fn try_parse(s: &str) -> (r: Option<Prog>)
    ensures
        r is Some <==> program_text_ok(s@),
        r matches Some(p) ==> sexp_parse(wrapped(s@)) matches Some(t) && parses_prog(t, p),
{
    let w = wrap(s);
    match read_sexp(w.as_str()) {
        Some(t) => {
            if read_prog(&t).is_some() {
                Some(parse(s))
            } else {
                None
            }
        },
        None => None,
    }
}


/// Structural equality of expressions: the same variants with equal names
/// and numbers, the expressions of blocks compared one for one.
pub open spec fn same_expr(a: Expr, b: Expr) -> bool
    decreases a,
{
    match a {
        Expr::Add1(x) => b matches Expr::Add1(y) && same_expr(*x, *y),
        Expr::Sub1(x) => b matches Expr::Sub1(y) && same_expr(*x, *y),
        Expr::Neg(x) => b matches Expr::Neg(y) && same_expr(*x, *y),
        Expr::Loop(x) => b matches Expr::Loop(y) && same_expr(*x, *y),
        Expr::Break(x) => b matches Expr::Break(y) && same_expr(*x, *y),
        Expr::Print(x) => b matches Expr::Print(y) && same_expr(*x, *y),
        Expr::Let(n, x1, x2) => b matches Expr::Let(m, y1, y2) && n == m && same_expr(*x1, *y1)
            && same_expr(*x2, *y2),
        Expr::Plus(x1, x2) => b matches Expr::Plus(y1, y2) && same_expr(*x1, *y1) && same_expr(
            *x2,
            *y2,
        ),
        Expr::Mult(x1, x2) => b matches Expr::Mult(y1, y2) && same_expr(*x1, *y1) && same_expr(
            *x2,
            *y2,
        ),
        Expr::Eq(x1, x2) => b matches Expr::Eq(y1, y2) && same_expr(*x1, *y1) && same_expr(*x2, *y2),
        Expr::Le(x1, x2) => b matches Expr::Le(y1, y2) && same_expr(*x1, *y1) && same_expr(*x2, *y2),
        Expr::Vec(x1, x2) => b matches Expr::Vec(y1, y2) && same_expr(*x1, *y1) && same_expr(
            *x2,
            *y2,
        ),
        Expr::If(x1, x2, x3) => b matches Expr::If(y1, y2, y3) && same_expr(*x1, *y1) && same_expr(
            *x2,
            *y2,
        ) && same_expr(*x3, *y3),
        Expr::Assign(n, x) => b matches Expr::Assign(m, y) && n == m && same_expr(*x, *y),
        Expr::Get(x, i) => b matches Expr::Get(y, j) && i == j && same_expr(*x, *y),
        Expr::Call1(f, x) => b matches Expr::Call1(g, y) && f == g && same_expr(*x, *y),
        Expr::Call2(f, x1, x2) => b matches Expr::Call2(g, y1, y2) && f == g && same_expr(*x1, *y1)
            && same_expr(*x2, *y2),
        Expr::Block(xs) => b matches Expr::Block(ys) && same_exprs(xs@, ys@),
        _ => a == b,
    }
}

/// Structural equality of two sequences of expressions, one for one.
pub open spec fn same_exprs(xs: Seq<Expr>, ys: Seq<Expr>) -> bool
    decreases xs,
{
    xs.len() == ys.len() && (xs.len() == 0 || (same_exprs(xs.drop_last(), ys.drop_last())
        && same_expr(xs.last(), ys.last())))
}

/// Structural equality of definitions.
pub open spec fn same_defn(a: Defn, b: Defn) -> bool {
    match (a, b) {
        (Defn::Fun1(f, x, e1), Defn::Fun1(g, y, e2)) => f == g && x == y && same_expr(*e1, *e2),
        (Defn::Fun2(f, x1, x2, e1), Defn::Fun2(g, y1, y2, e2)) => f == g && x1 == y1 && x2 == y2
            && same_expr(*e1, *e2),
        _ => false,
    }
}

/// The parser reads an s-expression as at most one expression: any two
/// readings are structurally equal.
pub proof fn lemma_parses_functional(s: Sexpr, e1: Expr, e2: Expr)
    requires
        parses(s, e1),
        parses(s, e2),
    ensures
        same_expr(e1, e2),
    decreases s, 1int,
{
    if let Sexpr::List(v) = s {
        assert(decreases_to!(s => v));
        if v@.len() > 1 {
            assert(decreases_to!(v => v@[1]));
        }
        if v@.len() > 2 {
            assert(decreases_to!(v => v@[2]));
        }
        if v@.len() > 3 {
            assert(decreases_to!(v => v@[3]));
        }
        match e1 {
            Expr::Add1(a) => lemma_parses_functional(v@[1], *a, *e2->Add1_0),
            Expr::Sub1(a) => lemma_parses_functional(v@[1], *a, *e2->Sub1_0),
            Expr::Neg(a) => lemma_parses_functional(v@[1], *a, *e2->Neg_0),
            Expr::Loop(a) => lemma_parses_functional(v@[1], *a, *e2->Loop_0),
            Expr::Print(a) => lemma_parses_functional(v@[1], *a, *e2->Print_0),
            Expr::Break(a) => lemma_parses_functional(v@[1], *a, *e2->Break_0),
            Expr::Call1(_, a) => lemma_parses_functional(v@[1], *a, *e2->Call1_1),
            Expr::Assign(_, a) => lemma_parses_functional(v@[2], *a, *e2->Assign_1),
            Expr::Get(a, _) => lemma_parses_functional(v@[1], *a, *e2->Get_0),
            Expr::Plus(a, b) => {
                lemma_parses_functional(v@[1], *a, *e2->Plus_0);
                lemma_parses_functional(v@[2], *b, *e2->Plus_1);
            },
            Expr::Mult(a, b) => {
                lemma_parses_functional(v@[1], *a, *e2->Mult_0);
                lemma_parses_functional(v@[2], *b, *e2->Mult_1);
            },
            Expr::Eq(a, b) => {
                lemma_parses_functional(v@[1], *a, *e2->Eq_0);
                lemma_parses_functional(v@[2], *b, *e2->Eq_1);
            },
            Expr::Le(a, b) => {
                lemma_parses_functional(v@[1], *a, *e2->Le_0);
                lemma_parses_functional(v@[2], *b, *e2->Le_1);
            },
            Expr::Vec(a, b) => {
                lemma_parses_functional(v@[1], *a, *e2->Vec_0);
                lemma_parses_functional(v@[2], *b, *e2->Vec_1);
            },
            Expr::Call2(_, a, b) => {
                lemma_parses_functional(v@[1], *a, *e2->Call2_1);
                lemma_parses_functional(v@[2], *b, *e2->Call2_2);
            },
            Expr::If(a, b, c) => {
                lemma_parses_functional(v@[1], *a, *e2->If_0);
                lemma_parses_functional(v@[2], *b, *e2->If_1);
                lemma_parses_functional(v@[3], *c, *e2->If_2);
            },
            Expr::Let(_, a, b) => {
                let bind = v@[1]->List_0;
                assert(decreases_to!(v@[1] => bind));
                assert(decreases_to!(bind => bind@[1]));
                lemma_parses_functional(bind@[1], *a, *e2->Let_1);
                lemma_parses_functional(v@[2], *b, *e2->Let_2);
            },
            Expr::Block(es) => {
                assert(v@.skip(1).take(v@.len() - 1) =~= v@.skip(1));
                lemma_all_parse_functional(v@.skip(1), es@, e2->Block_0@, s);
            },
            _ => {},
        }
    }
}

proof fn lemma_all_parse_functional(ss: Seq<Sexpr>, es1: Seq<Expr>, es2: Seq<Expr>, s: Sexpr)
    requires
        all_parse(ss, es1),
        all_parse(ss, es2),
        s matches Sexpr::List(v) && ss.len() < v@.len() && ss == v@.skip(1).take(ss.len() as int),
    ensures
        same_exprs(es1, es2),
    decreases s, 0int, ss.len(),
{
    if ss.len() > 0 {
        let v = s->List_0;
        assert(ss.drop_last() =~= v@.skip(1).take(ss.len() - 1));
        assert(ss.last() == ss[ss.len() - 1]);
        lemma_all_parse_functional(ss.drop_last(), es1.drop_last(), es2.drop_last(), s);
        assert(ss.last() == v@[ss.len() as int]);
        assert(decreases_to!(s => v));
        assert(decreases_to!(v => v@[ss.len() as int]));
        lemma_parses_functional(ss.last(), es1.last(), es2.last());
    }
}

/// The parser reads a definition in at most one way.
pub proof fn lemma_parses_defn_functional(s: Sexpr, d1: Defn, d2: Defn)
    requires
        parses_defn(s, d1),
        parses_defn(s, d2),
    ensures
        same_defn(d1, d2),
{
    let es = s->List_0;
    match d1 {
        Defn::Fun1(_, _, b1) => lemma_parses_functional(es@[2], *b1, *d2->Fun1_2),
        Defn::Fun2(_, _, _, b1) => lemma_parses_functional(es@[2], *b1, *d2->Fun2_3),
    }
}

/// The parts of a program agree with the parts parsed one by one: the
/// definitions of a program read from `(d_0 ... d_{n-2} e)` are, in order,
/// what `parse_defn` reads from each `d_i`, and its main expression is what
/// `parse_expr` reads from `e`.
pub proof fn lemma_program_parts(s: Sexpr, p: Prog, i: int, d: Defn, e: Expr)
    requires
        parses_prog(s, p),
        0 <= i < p.defs@.len(),
        parses_defn(s->List_0@[i], d),
        parses(s->List_0@.last(), e),
    ensures
        p.defs@.len() == s->List_0@.len() - 1,
        same_defn(p.defs@[i], d),
        same_expr(*p.expr, e),
{
    lemma_parses_defn_functional(s->List_0@[i], p.defs@[i], d);
    lemma_parses_functional(s->List_0@.last(), *p.expr, e);
}

/// What the parser makes of each form: a list headed by the symbol of an
/// operator reads as that operator's expression, with its operands read one
/// by one in order (`(sub1 e)` as `Sub1` of the reading of `e`, `(+ a b)` as
/// `Plus` of the readings of `a` and `b`, and so on).
pub proof fn lemma_form_readings(v: Vec<Sexpr>, r: Expr)
    requires
        v@.len() >= 1,
        parses(Sexpr::List(v), r),
    ensures
        v@.len() == 2 && is_symbol(v@[0], "add1"@) ==> (r matches Expr::Add1(a) && parses(v@[1], *a)),
        v@.len() == 2 && is_symbol(v@[0], "sub1"@) ==> (r matches Expr::Sub1(a) && parses(v@[1], *a)),
        v@.len() == 2 && is_symbol(v@[0], "negate"@) ==> (r matches Expr::Neg(a) && parses(v@[1], *a)),
        v@.len() == 2 && is_symbol(v@[0], "loop"@) ==> (r matches Expr::Loop(a) && parses(v@[1], *a)),
        v@.len() == 2 && is_symbol(v@[0], "print"@) ==> (r matches Expr::Print(a) && parses(v@[1], *a)),
        v@.len() == 2 && is_symbol(v@[0], "break"@) ==> (r matches Expr::Break(a) && parses(v@[1], *a)),
        v@.len() == 3 && is_symbol(v@[0], "+"@) ==> (r matches Expr::Plus(a, b) && parses(v@[1], *a) && parses(v@[2], *b)),
        v@.len() == 3 && is_symbol(v@[0], "="@) ==> (r matches Expr::Eq(a, b) && parses(v@[1], *a) && parses(v@[2], *b)),
        v@.len() == 3 && is_symbol(v@[0], "*"@) ==> (r matches Expr::Mult(a, b) && parses(v@[1], *a) && parses(v@[2], *b)),
        v@.len() == 3 && is_symbol(v@[0], "<="@) ==> (r matches Expr::Le(a, b) && parses(v@[1], *a) && parses(v@[2], *b)),
        v@.len() == 3 && is_symbol(v@[0], "vec"@) ==> (r matches Expr::Vec(a, b) && parses(v@[1], *a) && parses(v@[2], *b)),
        v@.len() == 4 && is_symbol(v@[0], "if"@) ==> (r matches Expr::If(a, b, c) && parses(v@[1], *a) && parses(v@[2], *b) && parses(v@[3], *c)),
        v@.len() == 3 && is_symbol(v@[0], "let"@) ==> (r matches Expr::Let(x, a, b) && v@[1] matches Sexpr::List(bd) && bd@.len() == 2 && bd@[0] == Sexpr::Atom(Atom::S(x)) && parses(bd@[1], *a) && parses(v@[2], *b)),
        v@.len() == 3 && is_symbol(v@[0], "set!"@) && is_any_symbol(v@[1]) ==> (r matches Expr::Assign(x, a) && v@[1] == Sexpr::Atom(Atom::S(x)) && parses(v@[2], *a)),
        is_symbol(v@[0], "block"@) ==> (r matches Expr::Block(es) && es@.len() == v@.len() - 1 && forall|i: int| 0 <= i < es@.len() ==> parses(v@[i + 1], #[trigger] es@[i])),
        v@.len() == 3 && is_symbol(v@[0], "vec-get"@) ==> (r matches Expr::Get(a, i) && parses(v@[1], *a) && (is_symbol(v@[2], "0"@) && i == Index::Zero || is_symbol(v@[2], "1"@) && i == Index::One)),
        (v@.len() == 2 && (v@[0] matches Sexpr::Atom(Atom::S(f)) && f@ != "add1"@ && f@ != "sub1"@ && f@ != "negate"@ && f@ != "loop"@ && f@ != "print"@ && f@ != "break"@ && f@ != "block"@)) ==> (r matches Expr::Call1(g, a) && v@[0] == Sexpr::Atom(Atom::S(g)) && parses(v@[1], *a)),
        (v@.len() == 3 && (v@[0] matches Sexpr::Atom(Atom::S(f)) && f@ != "+"@ && f@ != "*"@ && f@ != "="@ && f@ != "<="@ && f@ != "let"@ && f@ != "block"@ && f@ != "vec"@ && f@ != "vec-get"@ && !(f@ == "set!"@ && is_any_symbol(v@[1])))) ==> (r matches Expr::Call2(g, a, b) && v@[0] == Sexpr::Atom(Atom::S(g)) && parses(v@[1], *a) && parses(v@[2], *b)),
{
    reveal_strlit("add1");
    reveal_strlit("sub1");
    reveal_strlit("negate");
    reveal_strlit("loop");
    reveal_strlit("print");
    reveal_strlit("break");
    reveal_strlit("+");
    reveal_strlit("*");
    reveal_strlit("=");
    reveal_strlit("<=");
    reveal_strlit("if");
    reveal_strlit("let");
    reveal_strlit("set!");
    reveal_strlit("block");
    reveal_strlit("vec");
    reveal_strlit("vec-get");
    reveal_strlit("0");
    reveal_strlit("1");
    assert("add1"@[0] != "sub1"@[0]);
    assert("add1"@[0] != "loop"@[0]);
    assert("add1"@[0] != "set!"@[0]);
    assert("sub1"@[0] != "loop"@[0]);
    assert("sub1"@[1] != "set!"@[1]);
    assert("loop"@[0] != "set!"@[0]);
    assert("print"@[0] != "break"@[0]);
    assert("print"@[0] != "block"@[0]);
    assert("break"@[1] != "block"@[1]);
    assert("+"@[0] != "*"@[0]);
    assert("+"@[0] != "="@[0]);
    assert("+"@[0] != "0"@[0]);
    assert("+"@[0] != "1"@[0]);
    assert("*"@[0] != "="@[0]);
    assert("*"@[0] != "0"@[0]);
    assert("*"@[0] != "1"@[0]);
    assert("="@[0] != "0"@[0]);
    assert("="@[0] != "1"@[0]);
    assert("<="@[0] != "if"@[0]);
    assert("let"@[0] != "vec"@[0]);
    assert("0"@[0] != "1"@[0]);
    assert("add1"@.len() == 4);
    assert("sub1"@.len() == 4);
    assert("negate"@.len() == 6);
    assert("loop"@.len() == 4);
    assert("print"@.len() == 5);
    assert("break"@.len() == 5);
    assert("+"@.len() == 1);
    assert("*"@.len() == 1);
    assert("="@.len() == 1);
    assert("<="@.len() == 2);
    assert("if"@.len() == 2);
    assert("let"@.len() == 3);
    assert("set!"@.len() == 4);
    assert("block"@.len() == 5);
    assert("vec"@.len() == 3);
    assert("vec-get"@.len() == 7);
    assert("0"@.len() == 1);
    assert("1"@.len() == 1);
    if is_symbol(v@[0], "block"@) {
        lemma_all_parse(v@.skip(1), r->Block_0@);
        assert forall|i: int| 0 <= i < r->Block_0@.len() implies parses(v@[i + 1], #[trigger] r->Block_0@[i]) by {
            assert(v@.skip(1)[i] == v@[i + 1]);
        }
    }
}


} // verus!
