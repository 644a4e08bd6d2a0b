//! Evaluation and code generation for expressions of the second stage.
use vstd::prelude::*;
use crate::env::{
    i32_entries, i32_env_get, i32_env_update, usize_entries, usize_env_get, usize_env_new,
    usize_env_update,
};
use crate::sexpr::{read_sexp, sexp_parse};
use crate::text::{int_text, nat_text, push_int, push_nat};
use super::expr::{parsable, parse_expr, parse_spec, Expr};

verus! {

/// The value of `e` with the variables bound by `env`; `None` where an
/// unbound variable is read or a result leaves the range of `i32`.
pub open spec fn eval_spec(e: Expr, env: Map<Seq<char>, i32>) -> Option<i32>
    decreases e,
{
    match e {
        Expr::Num(n) => Some(n),
        Expr::Add1(a) => match eval_spec(*a, env) {
            Some(v) => if v + 1 <= i32::MAX {
                Some((v + 1) as i32)
            } else {
                None
            },
            None => None,
        },
        Expr::Sub1(a) => match eval_spec(*a, env) {
            Some(v) => if v - 1 >= i32::MIN {
                Some((v - 1) as i32)
            } else {
                None
            },
            None => None,
        },
        Expr::Neg(a) => match eval_spec(*a, env) {
            Some(v) => if v != i32::MIN {
                Some((-v) as i32)
            } else {
                None
            },
            None => None,
        },
        Expr::Var(x) => if env.dom().contains(x@) {
            Some(env[x@])
        } else {
            None
        },
        Expr::Let(x, a, b) => match eval_spec(*a, env) {
            Some(v1) => eval_spec(*b, env.insert(x@, v1)),
            None => None,
        },
        Expr::Plus(a, b) => match (eval_spec(*a, env), eval_spec(*b, env)) {
            (Some(v1), Some(v2)) => if i32::MIN <= v1 + v2 <= i32::MAX {
                Some((v1 + v2) as i32)
            } else {
                None
            },
            _ => None,
        },
    }
}

/// The value of `e` with the variables bound by `env`: `let` binds its
/// variable to the value of its first operand for the body, an inner binding
/// hides an outer one. Expressions that read an unbound variable or overflow
/// are left out.
pub fn eval(e: &Expr, env: &im::HashMap<String, i32>) -> (r: i32)
    requires
        eval_spec(*e, i32_entries(*env)) is Some,
    ensures
        eval_spec(*e, i32_entries(*env)) == Some(r),
    decreases e,
{
    match e {
        Expr::Num(n) => *n,
        Expr::Add1(e1) => eval(e1, env) + 1,
        Expr::Sub1(e1) => eval(e1, env) - 1,
        Expr::Neg(e1) => -eval(e1, env),
        Expr::Var(x) => i32_env_get(env, x).unwrap(),
        Expr::Let(x, e1, e2) => {
            let v1 = eval(e1, env);
            let new_env = i32_env_update(env, x.clone(), v1);
            eval(e2, &new_env)
        },
        Expr::Plus(e1, e2) => {
            let v1 = eval(e1, env);
            let v2 = eval(e2, env);
            v1 + v2
        },
    }
}

/// The code of `e` with variables at the stack slots of `env` and the next
/// free slot `si`; `None` where an unbound variable is read or a slot index
/// overflows.
pub open spec fn compile_spec(e: Expr, env: Map<Seq<char>, usize>, si: int) -> Option<Seq<char>>
    decreases e,
{
    match e {
        Expr::Num(n) => Some("mov rax, "@ + int_text(n as int)),
        Expr::Add1(a) => match compile_spec(*a, env, si) {
            Some(c) => Some(c + "\nadd rax, 1"@),
            None => None,
        },
        Expr::Sub1(a) => match compile_spec(*a, env, si) {
            Some(c) => Some(c + "\nsub rax, 1"@),
            None => None,
        },
        Expr::Neg(a) => match compile_spec(*a, env, si) {
            Some(c) => Some(c + "\nneg rax"@),
            None => None,
        },
        Expr::Var(x) => if env.dom().contains(x@) {
            Some("mov rax, [rsp - 8*"@ + nat_text(env[x@] as nat) + "]"@)
        } else {
            None
        },
        Expr::Let(x, a, b) => if si + 1 > usize::MAX {
            None
        } else {
            match (compile_spec(*a, env, si), compile_spec(*b, env.insert(x@, si as usize), si + 1)) {
                (Some(c1), Some(c2)) => Some(
                    c1 + "\n"@ + ("mov [rsp - 8*"@ + nat_text(si as nat) + "], rax"@) + "\n"@ + c2,
                ),
                _ => None,
            }
        },
        Expr::Plus(a, b) => if si + 1 > usize::MAX {
            None
        } else {
            match (compile_spec(*a, env, si), compile_spec(*b, env, si + 1)) {
                (Some(c1), Some(c2)) => Some(
                    "\n"@ + c1 + "\nmov [rsp - 8*"@ + nat_text(si as nat) + "], rax\n"@ + c2
                        + "\nadd rax, [rsp - 8*"@ + nat_text(si as nat) + "]"@,
                ),
                _ => None,
            }
        },
    }
}

/// Whether the variable `x` occurs free in `e`: read outside any `let` that
/// binds `x`.
pub open spec fn occurs_free(e: Expr, x: Seq<char>) -> bool
    decreases e,
{
    match e {
        Expr::Num(_) => false,
        Expr::Add1(a) | Expr::Sub1(a) | Expr::Neg(a) => occurs_free(*a, x),
        Expr::Var(y) => y@ == x,
        Expr::Let(y, a, b) => occurs_free(*a, x) || (y@ != x && occurs_free(*b, x)),
        Expr::Plus(a, b) => occurs_free(*a, x) || occurs_free(*b, x),
    }
}

/// A binding of a variable that does not occur free in `e` changes neither
/// the value of `e` nor whether it has one.
pub proof fn lemma_eval_ignores_unused_binding(
    e: Expr,
    env: Map<Seq<char>, i32>,
    x: Seq<char>,
    v: i32,
)
    requires
        !occurs_free(e, x),
    ensures
        eval_spec(e, env.insert(x, v)) == eval_spec(e, env),
    decreases e,
{
    match e {
        Expr::Add1(a) | Expr::Sub1(a) | Expr::Neg(a) => {
            lemma_eval_ignores_unused_binding(*a, env, x, v);
        },
        Expr::Plus(a, b) => {
            lemma_eval_ignores_unused_binding(*a, env, x, v);
            lemma_eval_ignores_unused_binding(*b, env, x, v);
        },
        Expr::Let(y, a, b) => {
            lemma_eval_ignores_unused_binding(*a, env, x, v);
            if let Some(v1) = eval_spec(*a, env) {
                if y@ == x {
                    assert(env.insert(x, v).insert(y@, v1) =~= env.insert(y@, v1));
                } else {
                    lemma_eval_ignores_unused_binding(*b, env.insert(y@, v1), x, v);
                    assert(env.insert(x, v).insert(y@, v1) =~= env.insert(y@, v1).insert(x, v));
                }
            }
        },
        _ => {},
    }
}

/// The code that leaves the value of `e` in `rax`; a `let` saves its value
/// in slot `si` below `rsp` and the body uses the slots above it.
pub fn compile_expr(e: &Expr, si: usize, env: &im::HashMap<String, usize>) -> (r: String)
    requires
        compile_spec(*e, usize_entries(*env), si as int) is Some,
    ensures
        compile_spec(*e, usize_entries(*env), si as int) == Some(r@),
    decreases e,
{
    match e {
        Expr::Num(n) => {
            let mut out = String::from_str("mov rax, ");
            push_int(&mut out, *n as i64);
            out
        },
        Expr::Add1(subexpr) => {
            let mut out = compile_expr(subexpr, si, env);
            out.append("\nadd rax, 1");
            out
        },
        Expr::Sub1(subexpr) => {
            let mut out = compile_expr(subexpr, si, env);
            out.append("\nsub rax, 1");
            out
        },
        Expr::Neg(subexpr) => {
            let mut out = compile_expr(subexpr, si, env);
            out.append("\nneg rax");
            out
        },
        Expr::Var(x) => {
            let x_pos = usize_env_get(env, x).unwrap();
            let mut out = String::from_str("mov rax, [rsp - 8*");
            push_nat(&mut out, x_pos as u64);
            out.append("]");
            out
        },
        Expr::Let(x, e1, e2) => {
            let e1_code = compile_expr(e1, si, env);
            let x_pos = si;
            let mut x_save = String::from_str("mov [rsp - 8*");
            push_nat(&mut x_save, x_pos as u64);
            x_save.append("], rax");
            let new_env = usize_env_update(env, x.clone(), x_pos);
            let e2_code = compile_expr(e2, si + 1, &new_env);
            let mut out = e1_code;
            out.append("\n");
            out.append(x_save.as_str());
            out.append("\n");
            out.append(e2_code.as_str());
            out
        },
        Expr::Plus(e1, e2) => {
            let e1_code = compile_expr(e1, si, env);
            let e2_code = compile_expr(e2, si + 1, env);
            let mut out = String::from_str("\n");
            out.append(e1_code.as_str());
            out.append("\nmov [rsp - 8*");
            push_nat(&mut out, si as u64);
            out.append("], rax\n");
            out.append(e2_code.as_str());
            out.append("\nadd rax, [rsp - 8*");
            push_nat(&mut out, si as u64);
            out.append("]");
            out
        },
    }
}

/// Whether code generation for `e` succeeds.
pub fn compiles(e: &Expr, si: usize, env: &im::HashMap<String, usize>) -> (r: bool)
    ensures
        r == compile_spec(*e, usize_entries(*env), si as int) is Some,
    decreases e,
{
    match e {
        Expr::Num(_) => true,
        Expr::Add1(a) | Expr::Sub1(a) | Expr::Neg(a) => compiles(a, si, env),
        Expr::Var(x) => usize_env_get(env, x).is_some(),
        Expr::Let(x, a, b) => {
            if si == usize::MAX {
                return false;
            }
            let new_env = usize_env_update(env, x.clone(), si);
            compiles(a, si, env) && compiles(b, si + 1, &new_env)
        },
        Expr::Plus(a, b) => si != usize::MAX && compiles(a, si, env) && compiles(b, si + 1, env),
    }
}

/// The assembly program around the code of a main expression.
pub open spec fn program_text(code: Seq<char>) -> Seq<char> {
    "section .text\nglobal our_code_starts_here\nour_code_starts_here:\n  "@ + code + "\n  ret\n"@
}

/// The assembly program of an expression, its variables saved from slot 1 on.
pub fn compile_program(e: &Expr) -> (r: String)
    requires
        compile_spec(*e, Map::empty(), 1) is Some,
    ensures
        compile_spec(*e, Map::empty(), 1) matches Some(c) && r@ == program_text(c),
{
    let env = usize_env_new();
    proof {
        assert(usize_entries(env) =~= Map::empty());
    }
    let result = compile_expr(e, 1, &env);
    let mut out = String::from_str(
        "section .text\nglobal our_code_starts_here\nour_code_starts_here:\n  ",
    );
    out.append(result.as_str());
    out.append("\n  ret\n");
    out
}

/// The assembly program of a source text; `None` where the text is no
/// s-expression, denotes no expression, or reads an unbound variable.
pub open spec fn source_spec(text: Seq<char>) -> Option<Seq<char>> {
    match sexp_parse(text) {
        Some(s) => match parse_spec(s) {
            Some(e) => match compile_spec(e, Map::empty(), 1) {
                Some(c) => Some(program_text(c)),
                None => None,
            },
            None => None,
        },
        None => None,
    }
}

/// Reads, parses and compiles a source text.
pub fn compile_source(text: &str) -> (r: Option<String>)
    ensures
        match source_spec(text@) {
            Some(t) => r is Some && r->0@ == t,
            None => r is None,
        },
{
    let s = read_sexp(text)?;
    if !parsable(&s) {
        return None;
    }
    let e = parse_expr(&s);
    let env = usize_env_new();
    proof {
        assert(usize_entries(env) =~= Map::empty());
    }
    if !compiles(&e, 1, &env) {
        return None;
    }
    Some(compile_program(&e))
}

/// What each operator computes: `add1` adds one, `sub1` subtracts one,
/// `negate` negates, `+` adds, a variable reads its binding and `let` binds
/// its variable to the value of its first operand for the body; a result
/// out of the range of `i32` is no value.
pub proof fn lemma_eval_laws(a: Expr, b: Expr, x: String, env: Map<Seq<char>, i32>)
    ensures
        eval_spec(Expr::Num(7), env) == Some(7i32),
        eval_spec(a, env) is None ==> eval_spec(Expr::Add1(Box::new(a)), env) is None
            && eval_spec(Expr::Sub1(Box::new(a)), env) is None && eval_spec(
            Expr::Neg(Box::new(a)),
            env,
        ) is None && eval_spec(Expr::Plus(Box::new(a), Box::new(b)), env) is None
            && eval_spec(Expr::Plus(Box::new(b), Box::new(a)), env) is None && eval_spec(
            Expr::Let(x, Box::new(a), Box::new(b)),
            env,
        ) is None,
        eval_spec(a, env) matches Some(v) ==> {
            &&& eval_spec(Expr::Add1(Box::new(a)), env) == if v < i32::MAX {
                Some((v + 1) as i32)
            } else {
                None
            }
            &&& eval_spec(Expr::Sub1(Box::new(a)), env) == if v > i32::MIN {
                Some((v - 1) as i32)
            } else {
                None
            }
            &&& eval_spec(Expr::Neg(Box::new(a)), env) == if v > i32::MIN {
                Some((0 - v) as i32)
            } else {
                None
            }
            &&& eval_spec(Expr::Let(x, Box::new(a), Box::new(b)), env) == eval_spec(
                b,
                env.insert(x@, v),
            )
        },
        eval_spec(a, env) is Some && eval_spec(b, env) is Some ==> eval_spec(
            Expr::Plus(Box::new(a), Box::new(b)),
            env,
        ) == if i32::MIN <= eval_spec(a, env)->Some_0 + eval_spec(b, env)->Some_0 <= i32::MAX {
            Some((eval_spec(a, env)->Some_0 + eval_spec(b, env)->Some_0) as i32)
        } else {
            None
        },
        env.dom().contains(x@) ==> eval_spec(Expr::Var(x), env) == Some(env[x@]),
        !env.dom().contains(x@) ==> eval_spec(Expr::Var(x), env) is None,
{
}

} // verus!
