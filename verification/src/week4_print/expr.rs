//! Expressions of the fourth stage and their parser.
use vstd::prelude::*;
use crate::sexpr::{is_any_symbol, is_symbol, small_int, Atom, Sexpr};
use crate::text::is_word;

verus! {

#[derive(Debug)]
pub enum Expr {
    Num(i32),
    Add1(Box<Expr>),
    Sub1(Box<Expr>),
    Neg(Box<Expr>),
    Var(String),
    Let(String, Box<Expr>, Box<Expr>),
    Plus(Box<Expr>, Box<Expr>),
    Input,
    True,
    False,
    If(Box<Expr>, Box<Expr>, Box<Expr>),
    Eq(Box<Expr>, Box<Expr>),
    Assign(String, Box<Expr>),
    Block(Vec<Expr>),
    Loop(Box<Expr>),
    Break(Box<Expr>),
    Print(Box<Expr>),
}

pub fn num(n: i32) -> (e: Expr)
    ensures
        e == Expr::Num(n),
{
    Expr::Num(n)
}

pub fn add1(e: Expr) -> (r: Expr)
    ensures
        r == Expr::Add1(Box::new(e)),
{
    Expr::Add1(Box::new(e))
}

pub fn sub1(e: Expr) -> (r: Expr)
    ensures
        r == Expr::Sub1(Box::new(e)),
{
    Expr::Sub1(Box::new(e))
}

pub fn negate(e: Expr) -> (r: Expr)
    ensures
        r == Expr::Neg(Box::new(e)),
{
    Expr::Neg(Box::new(e))
}

/// `(add1 (sub1 5))`
pub fn expr0() -> (e: Expr)
    ensures
        e == Expr::Add1(Box::new(Expr::Sub1(Box::new(Expr::Num(5))))),
{
    add1(sub1(num(5)))
}

/// `(negate (add1 5))`
pub fn expr1() -> (e: Expr)
    ensures
        e == Expr::Neg(Box::new(Expr::Add1(Box::new(Expr::Num(5))))),
{
    negate(add1(num(5)))
}

pub fn plus(e1: Expr, e2: Expr) -> (r: Expr)
    ensures
        r == Expr::Plus(Box::new(e1), Box::new(e2)),
{
    Expr::Plus(Box::new(e1), Box::new(e2))
}

pub fn eq(e1: Expr, e2: Expr) -> (r: Expr)
    ensures
        r == Expr::Eq(Box::new(e1), Box::new(e2)),
{
    Expr::Eq(Box::new(e1), Box::new(e2))
}

pub fn ite(e1: Expr, e2: Expr, e3: Expr) -> (r: Expr)
    ensures
        r == Expr::If(Box::new(e1), Box::new(e2), Box::new(e3)),
{
    Expr::If(Box::new(e1), Box::new(e2), Box::new(e3))
}

/// The form of a list that starts with a symbol, in the order in which the
/// parser tries them.
pub enum Form {
    Add1,
    Sub1,
    Neg,
    Loop,
    Print,
    Break,
    Plus,
    Eq,
    If,
    Let,
    Assign,
    Block,
    Bad,
}

/// The form of a list whose head is the symbol `op`.
pub open spec fn op_form(op: Seq<char>, v: Seq<Sexpr>) -> Form {
    let n = v.len();
    if n == 2 && op == "add1"@ {
        Form::Add1
    } else if n == 2 && op == "sub1"@ {
        Form::Sub1
    } else if n == 2 && op == "negate"@ {
        Form::Neg
    } else if n == 2 && op == "loop"@ {
        Form::Loop
    } else if n == 2 && op == "print"@ {
        Form::Print
    } else if n == 2 && op == "break"@ {
        Form::Break
    } else if n == 3 && op == "+"@ {
        Form::Plus
    } else if n == 3 && op == "="@ {
        Form::Eq
    } else if n == 4 && op == "if"@ {
        Form::If
    } else if n == 3 && op == "let"@ {
        Form::Let
    } else if n == 3 && op == "set!"@ && is_any_symbol(v[1]) {
        Form::Assign
    } else if op == "block"@ {
        Form::Block
    } else {
        Form::Bad
    }
}

/// The form of a list: `Bad` unless it starts with a symbol.
pub open spec fn list_form(v: Seq<Sexpr>) -> Form {
    if v.len() == 0 {
        Form::Bad
    } else {
        match v[0] {
            Sexpr::Atom(Atom::S(op)) => op_form(op@, v),
            _ => Form::Bad,
        }
    }
}

fn form_of(v: &Vec<Sexpr>) -> (f: Form)
    ensures
        f == list_form(v@),
{
    if v.len() == 0 {
        return Form::Bad;
    }
    match &v[0] {
        Sexpr::Atom(Atom::S(op)) => {
            let n = v.len();
            if n == 2 && is_word(op, "add1") {
                Form::Add1
            } else if n == 2 && is_word(op, "sub1") {
                Form::Sub1
            } else if n == 2 && is_word(op, "negate") {
                Form::Neg
            } else if n == 2 && is_word(op, "loop") {
                Form::Loop
            } else if n == 2 && is_word(op, "print") {
                Form::Print
            } else if n == 2 && is_word(op, "break") {
                Form::Break
            } else if n == 3 && is_word(op, "+") {
                Form::Plus
            } else if n == 3 && is_word(op, "=") {
                Form::Eq
            } else if n == 4 && is_word(op, "if") {
                Form::If
            } else if n == 3 && is_word(op, "let") {
                Form::Let
            } else if n == 3 && is_word(op, "set!") && matches!(&v[1], Sexpr::Atom(Atom::S(_))) {
                Form::Assign
            } else if is_word(op, "block") {
                Form::Block
            } else {
                Form::Bad
            }
        },
        _ => Form::Bad,
    }
}

/// Whether the parser accepts `s` as an expression.
pub open spec fn parsable(s: Sexpr) -> bool
    decreases s,
{
    match s {
        Sexpr::Atom(Atom::I(n)) => small_int(n),
        Sexpr::Atom(Atom::S(_)) => true,
        Sexpr::Atom(Atom::F) => false,
        Sexpr::List(v) => match list_form(v@) {
            Form::Add1 | Form::Sub1 | Form::Neg | Form::Loop | Form::Print | Form::Break => parsable(
                v@[1],
            ),
            Form::Plus | Form::Eq => parsable(
                v@[1],
            ) && parsable(v@[2]),
            Form::If => parsable(v@[1]) && parsable(v@[2]) && parsable(v@[3]),
            Form::Let => match v@[1] {
                Sexpr::List(b) => b@.len() == 2 && is_any_symbol(b@[0]) && parsable(b@[1])
                    && parsable(v@[2]),
                _ => false,
            },
            Form::Assign => parsable(v@[2]),
            Form::Block => all_parsable(v@.skip(1)),
            Form::Bad => false,
        },
    }
}

/// Whether the parser accepts every s-expression of `ss`.
pub open spec fn all_parsable(ss: Seq<Sexpr>) -> bool
    decreases ss,
{
    if ss.len() == 0 {
        true
    } else {
        all_parsable(ss.drop_last()) && parsable(ss.last())
    }
}


/// Whether the parser reads `s` as the expression `e`.
pub open spec fn parses(s: Sexpr, e: Expr) -> bool
    decreases s,
{
    match s {
        Sexpr::Atom(Atom::I(n)) => small_int(n) && e == Expr::Num(n as i32),
        Sexpr::Atom(Atom::S(x)) => if x@ == "input"@ {
            e == Expr::Input
        } else if x@ == "true"@ {
            e == Expr::True
        } else if x@ == "false"@ {
            e == Expr::False
        } else {
            e == Expr::Var(x)
        },
        Sexpr::Atom(Atom::F) => false,
        Sexpr::List(v) => match list_form(v@) {
            Form::Add1 => e matches Expr::Add1(a) && parses(v@[1], *a),
            Form::Sub1 => e matches Expr::Sub1(a) && parses(v@[1], *a),
            Form::Neg => e matches Expr::Neg(a) && parses(v@[1], *a),
            Form::Loop => e matches Expr::Loop(a) && parses(v@[1], *a),
            Form::Print => e matches Expr::Print(a) && parses(v@[1], *a),
            Form::Break => e matches Expr::Break(a) && parses(v@[1], *a),
            Form::Plus => e matches Expr::Plus(a, b) && parses(v@[1], *a) && parses(v@[2], *b),
            Form::Eq => e matches Expr::Eq(a, b) && parses(v@[1], *a) && parses(v@[2], *b),
            Form::If => e matches Expr::If(a, b, c) && parses(v@[1], *a) && parses(v@[2], *b)
                && parses(v@[3], *c),
            Form::Let => match v@[1] {
                Sexpr::List(bind) => bind@.len() == 2 && (bind@[0] matches Sexpr::Atom(Atom::S(x))
                    && e matches Expr::Let(y, a, b) && y == x && parses(bind@[1], *a) && parses(
                    v@[2],
                    *b,
                )),
                _ => false,
            },
            Form::Assign => v@[1] matches Sexpr::Atom(Atom::S(x)) && e matches Expr::Assign(y, a)
                && y == x && parses(v@[2], *a),
            Form::Block => e matches Expr::Block(es) && all_parse(v@.skip(1), es@),
            Form::Bad => false,
        },
    }
}

/// Whether the parser reads the s-expressions `ss` as the expressions `es`,
/// one for one.
pub open spec fn all_parse(ss: Seq<Sexpr>, es: Seq<Expr>) -> bool
    decreases ss,
{
    ss.len() == es.len() && (ss.len() == 0 || (all_parse(ss.drop_last(), es.drop_last())
        && parses(ss.last(), es.last())))
}

proof fn lemma_all_parsable(ss: Seq<Sexpr>)
    ensures
        all_parsable(ss) <==> forall|j: int| 0 <= j < ss.len() ==> parsable(#[trigger] ss[j]),
    decreases ss.len(),
{
    if ss.len() > 0 {
        lemma_all_parsable(ss.drop_last());
        assert forall|j: int| 0 <= j < ss.len() - 1 implies ss.drop_last()[j] == ss[j] by {}
    }
}

proof fn lemma_all_parse(ss: Seq<Sexpr>, es: Seq<Expr>)
    ensures
        all_parse(ss, es) <==> ss.len() == es.len() && forall|j: int|
            0 <= j < ss.len() ==> parses(#[trigger] ss[j], es[j]),
    decreases ss.len(),
{
    if ss.len() > 0 && ss.len() == es.len() {
        lemma_all_parse(ss.drop_last(), es.drop_last());
        assert forall|j: int| 0 <= j < ss.len() - 1 implies ss.drop_last()[j] == ss[j]
            && es.drop_last()[j] == es[j] by {}
    }
}

/// Parses a symbol; s-expressions that are no symbol are left out.
fn parse_ident(s: &Sexpr) -> (x: String)
    requires
        is_any_symbol(*s),
    ensures
        *s == Sexpr::Atom(Atom::S(x)),
{
    match s {
        Sexpr::Atom(Atom::S(x)) => x.clone(),
        _ => unreached(),
    }
}

/// Whether `s` is a binding `(x e)` that the parser accepts.
pub open spec fn bind_parsable(s: Sexpr) -> bool {
    s matches Sexpr::List(b) && b@.len() == 2 && is_any_symbol(b@[0]) && parsable(b@[1])
}

/// Parses the binding `(x e)` of a `let`; other s-expressions are left out.
fn parse_bind(s: &Sexpr) -> (r: (String, Expr))
    requires
        bind_parsable(*s),
    ensures
        s matches Sexpr::List(b) && b@[0] == Sexpr::Atom(Atom::S(r.0)) && parses(b@[1], r.1),
    decreases s,
{
    match s {
        Sexpr::List(b) => {
            proof {
                assert(decreases_to!(*s => (*s)->List_0));
                assert(decreases_to!(*b => b@[1]));
            }
            let x = parse_ident(&b[0]);
            let e = parse_expr(&b[1]);
            (x, e)
        },
        _ => unreached(),
    }
}

/// Parses an expression; the s-expressions that it rejects are left out.
pub fn parse_expr(s: &Sexpr) -> (e: Expr)
    requires
        parsable(*s),
    ensures
        parses(*s, e),
    decreases s,
{
    match s {
        Sexpr::Atom(Atom::I(n)) => num(*n as i32),
        Sexpr::Atom(Atom::S(x)) => {
            if is_word(x, "input") {
                Expr::Input
            } else if is_word(x, "true") {
                Expr::True
            } else if is_word(x, "false") {
                Expr::False
            } else {
                Expr::Var(x.clone())
            }
        },
        Sexpr::Atom(Atom::F) => unreached(),
        Sexpr::List(v) => {
            let f = form_of(v);
            match f {
                Form::Add1 => add1(parse_expr(&v[1])),
                Form::Sub1 => sub1(parse_expr(&v[1])),
                Form::Neg => negate(parse_expr(&v[1])),
                Form::Loop => Expr::Loop(Box::new(parse_expr(&v[1]))),
                Form::Print => Expr::Print(Box::new(parse_expr(&v[1]))),
                Form::Break => Expr::Break(Box::new(parse_expr(&v[1]))),
                Form::Plus => {
                    let a = parse_expr(&v[1]);
                    let b = parse_expr(&v[2]);
                    plus(a, b)
                },
                Form::Eq => {
                    let a = parse_expr(&v[1]);
                    let b = parse_expr(&v[2]);
                    eq(a, b)
                },
                Form::If => {
                    let a = parse_expr(&v[1]);
                    let b = parse_expr(&v[2]);
                    let c = parse_expr(&v[3]);
                    ite(a, b, c)
                },
                Form::Let => {
                    let (x, e1) = parse_bind(&v[1]);
                    let e2 = parse_expr(&v[2]);
                    Expr::Let(x, Box::new(e1), Box::new(e2))
                },
                Form::Assign => {
                    let x = parse_ident(&v[1]);
                    let e = parse_expr(&v[2]);
                    Expr::Assign(x, Box::new(e))
                },
                Form::Block => {
                    let mut es: Vec<Expr> = Vec::new();
                    let mut i: usize = 1;
                    proof {
                        lemma_all_parsable(v@.skip(1));
                        assert forall|j: int| 1 <= j < v@.len() implies parsable(#[trigger] v@[j]) by {
                            assert(v@.skip(1)[j - 1] == v@[j]);
                        }
                    }
                    while i < v.len()
                        invariant
                            *s == Sexpr::List(*v),
                            list_form(v@) == Form::Block,
                            1 <= i <= v@.len(),
                            es@.len() == i - 1,
                            forall|j: int| 1 <= j < v@.len() ==> parsable(#[trigger] v@[j]),
                            forall|j: int| 1 <= j < i ==> parses(#[trigger] v@[j], es@[j - 1]),
                        decreases v@.len() - i,
                    {
                        proof {
                            assert(decreases_to!(*v => v[i as int]));
                            assert(decreases_to!(*s => (*s)->List_0));
                            assert(decreases_to!(*s => v@[i as int]));
                        }
                        let e = parse_expr(&v[i]);
                        es.push(e);
                        i = i + 1;
                    }
                    proof {
                        assert forall|j: int| 0 <= j < v@.skip(1).len() implies parses(
                            #[trigger] v@.skip(1)[j],
                            es@[j],
                        ) by {
                            assert(v@.skip(1)[j] == v@[j + 1]);
                        }
                        lemma_all_parse(v@.skip(1), es@);
                    }
                    Expr::Block(es)
                },
                Form::Bad => unreached(),
            }
        },
    }
}


/// What the parser makes of each form: a list headed by the symbol of an
/// operator reads as that operator's expression, with its operands read one
/// by one in order (`(sub1 e)` as `Sub1` of the reading of `e`, `(+ a b)` as
/// `Plus` of the readings of `a` and `b`, and so on).
pub proof fn lemma_form_readings(v: Vec<Sexpr>, r: Expr)
    requires
        v@.len() >= 1,
        parses(Sexpr::List(v), r),
    ensures
        v@.len() == 2 && is_symbol(v@[0], "add1"@) ==> (r matches Expr::Add1(a) && parses(v@[1], *a)),
        v@.len() == 2 && is_symbol(v@[0], "sub1"@) ==> (r matches Expr::Sub1(a) && parses(v@[1], *a)),
        v@.len() == 2 && is_symbol(v@[0], "negate"@) ==> (r matches Expr::Neg(a) && parses(v@[1], *a)),
        v@.len() == 2 && is_symbol(v@[0], "loop"@) ==> (r matches Expr::Loop(a) && parses(v@[1], *a)),
        v@.len() == 2 && is_symbol(v@[0], "print"@) ==> (r matches Expr::Print(a) && parses(v@[1], *a)),
        v@.len() == 2 && is_symbol(v@[0], "break"@) ==> (r matches Expr::Break(a) && parses(v@[1], *a)),
        v@.len() == 3 && is_symbol(v@[0], "+"@) ==> (r matches Expr::Plus(a, b) && parses(v@[1], *a) && parses(v@[2], *b)),
        v@.len() == 3 && is_symbol(v@[0], "="@) ==> (r matches Expr::Eq(a, b) && parses(v@[1], *a) && parses(v@[2], *b)),
        v@.len() == 4 && is_symbol(v@[0], "if"@) ==> (r matches Expr::If(a, b, c) && parses(v@[1], *a) && parses(v@[2], *b) && parses(v@[3], *c)),
        v@.len() == 3 && is_symbol(v@[0], "let"@) ==> (r matches Expr::Let(x, a, b) && v@[1] matches Sexpr::List(bd) && bd@.len() == 2 && bd@[0] == Sexpr::Atom(Atom::S(x)) && parses(bd@[1], *a) && parses(v@[2], *b)),
        v@.len() == 3 && is_symbol(v@[0], "set!"@) && is_any_symbol(v@[1]) ==> (r matches Expr::Assign(x, a) && v@[1] == Sexpr::Atom(Atom::S(x)) && parses(v@[2], *a)),
        is_symbol(v@[0], "block"@) ==> (r matches Expr::Block(es) && es@.len() == v@.len() - 1 && forall|i: int| 0 <= i < es@.len() ==> parses(v@[i + 1], #[trigger] es@[i])),
{
    reveal_strlit("add1");
    reveal_strlit("sub1");
    reveal_strlit("negate");
    reveal_strlit("loop");
    reveal_strlit("print");
    reveal_strlit("break");
    reveal_strlit("+");
    reveal_strlit("=");
    reveal_strlit("if");
    reveal_strlit("let");
    reveal_strlit("set!");
    reveal_strlit("block");
    assert("add1"@[0] != "sub1"@[0]);
    assert("add1"@[0] != "loop"@[0]);
    assert("add1"@[0] != "set!"@[0]);
    assert("sub1"@[0] != "loop"@[0]);
    assert("sub1"@[1] != "set!"@[1]);
    assert("loop"@[0] != "set!"@[0]);
    assert("print"@[0] != "break"@[0]);
    assert("print"@[0] != "block"@[0]);
    assert("break"@[1] != "block"@[1]);
    assert("+"@[0] != "="@[0]);
    assert("add1"@.len() == 4);
    assert("sub1"@.len() == 4);
    assert("negate"@.len() == 6);
    assert("loop"@.len() == 4);
    assert("print"@.len() == 5);
    assert("break"@.len() == 5);
    assert("+"@.len() == 1);
    assert("="@.len() == 1);
    assert("if"@.len() == 2);
    assert("let"@.len() == 3);
    assert("set!"@.len() == 4);
    assert("block"@.len() == 5);
    if is_symbol(v@[0], "block"@) {
        lemma_all_parse(v@.skip(1), r->Block_0@);
        assert forall|i: int| 0 <= i < r->Block_0@.len() implies parses(v@[i + 1], #[trigger] r->Block_0@[i]) by {
            assert(v@.skip(1)[i] == v@[i + 1]);
        }
    }
}


} // verus!
