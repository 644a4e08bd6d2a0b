use snek::week2_plus::compiler::{compile_expr, compile_program, compile_source, eval};
use snek::week2_plus::expr::{expr0, expr1, plus, Expr};

#[test]
fn test_eval() {
    let e = Expr::Add1(Box::new(Expr::Num(1)));
    assert_eq!(eval(&e, &im::HashMap::new()), 2);
}

// let (x 10) (add1 x)
#[test]
fn test_compile_expr() {
    let e = Expr::Let(
        "x".to_string(),
        Box::new(Expr::Num(10)),
        Box::new(Expr::Add1(Box::new(Expr::Var("x".to_string())))),
    );
    assert_eq!(eval(&e, &im::HashMap::new()), 11);
}

#[test]
fn eval_builders() {
    assert_eq!(eval(&expr0(), &im::HashMap::new()), 5);
    assert_eq!(eval(&expr1(), &im::HashMap::new()), -6);
    assert_eq!(eval(&plus(Expr::Num(40), Expr::Num(2)), &im::HashMap::new()), 42);
}

#[test]
fn eval_inner_binding_hides_outer() {
    // (let (x 1) (let (x 2) (+ x x)))
    let e = Expr::Let(
        "x".to_string(),
        Box::new(Expr::Num(1)),
        Box::new(Expr::Let(
            "x".to_string(),
            Box::new(Expr::Num(2)),
            Box::new(plus(Expr::Var("x".to_string()), Expr::Var("x".to_string()))),
        )),
    );
    assert_eq!(eval(&e, &im::HashMap::new()), 4);
}

#[test]
fn eval_reads_outer_environment() {
    let env = im::HashMap::new().update("y".to_string(), 7);
    let e = Expr::Neg(Box::new(Expr::Var("y".to_string())));
    assert_eq!(eval(&e, &env), -7);
}

#[test]
fn compile_let_uses_stack_slots() {
    let e = Expr::Let(
        "x".to_string(),
        Box::new(Expr::Num(10)),
        Box::new(Expr::Add1(Box::new(Expr::Var("x".to_string())))),
    );
    assert_eq!(
        compile_expr(&e, 1, &im::HashMap::new()),
        "mov rax, 10\nmov [rsp - 8*1], rax\nmov rax, [rsp - 8*1]\nadd rax, 1"
    );
}

#[test]
fn compile_plus_saves_first_operand() {
    let e = plus(Expr::Num(1), Expr::Num(-2));
    assert_eq!(
        compile_expr(&e, 3, &im::HashMap::new()),
        "\nmov rax, 1\nmov [rsp - 8*3], rax\nmov rax, -2\nadd rax, [rsp - 8*3]"
    );
}

#[test]
fn compile_program_wraps_code() {
    let e = Expr::Sub1(Box::new(Expr::Neg(Box::new(Expr::Num(3)))));
    assert_eq!(
        compile_program(&e),
        "section .text\nglobal our_code_starts_here\nour_code_starts_here:\n  mov rax, 3\nneg rax\nsub rax, 1\n  ret\n"
    );
}

#[test]
fn compile_source_reads_parses_and_compiles() {
    assert_eq!(
        compile_source("(let (x 10) (add1 x))").unwrap(),
        "section .text\nglobal our_code_starts_here\nour_code_starts_here:\n  mov rax, 10\nmov [rsp - 8*1], rax\nmov rax, [rsp - 8*1]\nadd rax, 1\n  ret\n"
    );
}

#[test]
fn compile_source_rejects() {
    // not an s-expression
    assert!(compile_source("(add1 5").is_none());
    // not an expression
    assert!(compile_source("(add1 5 6)").is_none());
    assert!(compile_source("2.5").is_none());
    assert!(compile_source("3000000000").is_none());
    // unbound variable
    assert!(compile_source("(add1 y)").is_none());
}

#[test]
fn eval_ignores_a_binding_it_does_not_use() {
    // (let (y 2) (+ y x)) reads x and binds y itself
    let e = Expr::Let(
        "y".to_string(),
        Box::new(Expr::Num(2)),
        Box::new(plus(Expr::Var("y".to_string()), Expr::Var("x".to_string()))),
    );
    let env = im::HashMap::new().update("x".to_string(), 5);
    assert_eq!(eval(&e, &env), 7);
    assert_eq!(eval(&e, &env.update("y".to_string(), 100)), 7);
    assert_eq!(eval(&e, &env.update("z".to_string(), -3)), 7);
}
