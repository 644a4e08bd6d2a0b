use snek::sexpr::{Atom, Sexpr};
use snek::week2_plus::expr::{parsable, parse_expr as parse_week2};
use snek::week4_print::expr::parse_expr as parse_week4;
use snek::week5_vec::expr::{
    parse, parse_defn, parse_expr as parse_week5, parse_prog, read_expr, read_prog, try_parse,
};

fn sym(s: &str) -> Sexpr {
    Sexpr::Atom(Atom::S(s.to_string()))
}

fn number(n: i64) -> Sexpr {
    Sexpr::Atom(Atom::I(n))
}

fn list(xs: Vec<Sexpr>) -> Sexpr {
    Sexpr::List(xs)
}

#[test]
fn week1_parse_nested() {
    let s = list(vec![sym("add1"), list(vec![sym("sub1"), number(5)])]);
    let e = snek::week1::expr::parse_expr(&s);
    assert_eq!(format!("{:?}", e), "Add1(Sub1(Num(5)))");
    assert_eq!(format!("{:?}", snek::week1::expr::expr0()), "Add1(Sub1(Num(5)))");
    assert_eq!(format!("{:?}", snek::week1::expr::expr1()), "Neg(Add1(Num(5)))");
}

#[test]
fn week1_parse_negate() {
    let s = list(vec![sym("negate"), number(-3)]);
    assert_eq!(format!("{:?}", snek::week1::expr::parse_expr(&s)), "Neg(Num(-3))");
}

#[test]
fn week2_parse_let_and_plus() {
    let s = list(vec![
        sym("let"),
        list(vec![sym("x"), number(1)]),
        list(vec![sym("+"), sym("x"), number(2)]),
    ]);
    assert!(parsable(&s));
    assert_eq!(format!("{:?}", parse_week2(&s)), "Let(\"x\", Num(1), Plus(Var(\"x\"), Num(2)))");
    assert!(!parsable(&list(vec![sym("let"), sym("x"), number(2)])));
    assert!(!parsable(&number(1i64 << 40)));
}

#[test]
fn week4_parse_forms() {
    let s = list(vec![
        sym("block"),
        list(vec![sym("set!"), sym("x"), sym("input")]),
        list(vec![sym("loop"), list(vec![sym("break"), sym("true")])]),
        list(vec![sym("print"), list(vec![sym("if"), sym("false"), number(1), list(vec![sym("="), number(2), number(3)])])]),
    ]);
    assert_eq!(
        format!("{:?}", parse_week4(&s)),
        "Block([Assign(\"x\", Input), Loop(Break(True)), Print(If(False, Num(1), Eq(Num(2), Num(3))))])"
    );
}

#[test]
fn week5_parse_program() {
    let p = try_parse("(defn (f x) (+ x 1)) (defn (g a b) (* a b)) (f (g 2 3))").unwrap();
    assert_eq!(
        format!("{:?}", p),
        "Prog { defs: [Fun1(\"f\", \"x\", Plus(Var(\"x\"), Num(1))), Fun2(\"g\", \"a\", \"b\", Mult(Var(\"a\"), Var(\"b\")))], expr: Call1(\"f\", Call2(\"g\", Num(2), Num(3))) }"
    );
}

#[test]
fn week5_parse_calls_and_pairs() {
    let p = parse("(vec (<= 1 2) (block))");
    assert_eq!(format!("{:?}", p), "Prog { defs: [], expr: Vec(Le(Num(1), Num(2)), Block([])) }");
    // `set!` whose target is no symbol is a call of a function named `set!`
    let p = parse("(set! 1 2)");
    assert_eq!(format!("{:?}", p), "Prog { defs: [], expr: Call2(\"set!\", Num(1), Num(2)) }");
}

#[test]
fn week5_parse_defn_direct() {
    let s = list(vec![sym("defn"), list(vec![sym("id"), sym("v")]), sym("v")]);
    assert_eq!(format!("{:?}", parse_defn(&s)), "Fun1(\"id\", \"v\", Var(\"v\"))");
}

#[test]
fn week5_parse_rejects() {
    assert!(try_parse("").is_none());
    assert!(try_parse("(add1").is_none());
    assert!(try_parse("(defn (f) 1) 2").is_none());
    assert!(try_parse("(defn (f a b c) 1) 2").is_none());
    assert!(try_parse("(let x 1)").is_none());
    assert!(try_parse("1.5").is_none());
    // the reader turns `0` into a number, so no index of `vec-get` parses
    assert!(try_parse("(vec-get (vec 1 2) 0)").is_none());
}

#[test]
fn week5_parse_prog_and_expr_from_trees() {
    let defn = list(vec![sym("defn"), list(vec![sym("f"), sym("x")]), sym("x")]);
    let p = parse_prog(&list(vec![defn, list(vec![sym("f"), number(3)])]));
    assert_eq!(format!("{:?}", p), "Prog { defs: [Fun1(\"f\", \"x\", Var(\"x\"))], expr: Call1(\"f\", Num(3)) }");
    let call = list(vec![sym("f"), number(3)]);
    assert_eq!(format!("{:?}", parse_week5(&call)), "Call1(\"f\", Num(3))");
    assert_eq!(format!("{:?}", read_expr(&call)), "Some(Call1(\"f\", Num(3)))");
    let bind = list(vec![sym("let"), list(vec![sym("x"), number(10)]), sym("x")]);
    assert_eq!(format!("{:?}", parse_week5(&bind)), "Let(\"x\", Num(10), Var(\"x\"))");
}

#[test]
fn week5_readers_reject_what_the_parser_panics_on() {
    assert!(read_prog(&list(vec![])).is_none());
    assert!(read_prog(&number(1)).is_none());
    assert!(read_expr(&number(2147483648)).is_none());
    assert!(read_expr(&list(vec![])).is_none());
    for bind in [sym("x"), list(vec![sym("x")]), list(vec![sym("x"), number(1), number(2)]), list(vec![number(1), number(2)])] {
        assert!(read_expr(&list(vec![sym("let"), bind, sym("x")])).is_none());
    }
}

#[test]
fn week5_program_parts_match_the_parts_parsed_alone() {
    let d1 = || list(vec![sym("defn"), list(vec![sym("f"), sym("x")]), list(vec![sym("add1"), sym("x")])]);
    let d2 = || list(vec![sym("defn"), list(vec![sym("g"), sym("a"), sym("b")]), list(vec![sym("+"), sym("a"), sym("b")])]);
    let main = || list(vec![sym("g"), number(1), list(vec![sym("f"), number(2)])]);
    let p = parse_prog(&list(vec![d1(), d2(), main()]));
    assert_eq!(p.defs.len(), 2);
    assert_eq!(format!("{:?}", p.defs[0]), format!("{:?}", parse_defn(&d1())));
    assert_eq!(format!("{:?}", p.defs[1]), format!("{:?}", parse_defn(&d2())));
    assert_eq!(format!("{:?}", p.expr), format!("{:?}", parse_week5(&main())));
}
