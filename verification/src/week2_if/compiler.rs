//! Code generation for expressions with conditionals.
use vstd::prelude::*;
use crate::env::{usize_entries, usize_env_get, usize_env_new, usize_env_update};
use crate::text::{int_text, nat_text, push_int, push_nat};
use super::expr::Expr;

verus! {

/// The code of `e` with variables at the stack slots of `env`, the next free
/// slot `sp` and label counter `count`, with the counter after it; `None`
/// where code generation panics or overflows: an unbound variable, `=`, or a
/// counter or slot out of range.
pub open spec fn compile_spec(e: Expr, env: Map<Seq<char>, usize>, sp: int, count: int) -> Option<
    (Seq<char>, int),
>
    decreases e,
{
    match e {
        Expr::Num(n) => Some(("mov rax, "@ + int_text(n as int), count)),
        Expr::Add1(a) => match compile_spec(*a, env, sp, count) {
            Some((c, k)) => Some((c + "\nadd rax, 1"@, k)),
            None => None,
        },
        Expr::Sub1(a) => match compile_spec(*a, env, sp, count) {
            Some((c, k)) => Some((c + "\nsub rax, 1"@, k)),
            None => None,
        },
        Expr::Neg(a) => match compile_spec(*a, env, sp, count) {
            Some((c, k)) => Some((c + "\nneg rax"@, k)),
            None => None,
        },
        Expr::Var(x) => if env.dom().contains(x@) {
            Some(("mov rax, [rsp - 8*"@ + nat_text(env[x@] as nat) + "]"@, count))
        } else {
            None
        },
        Expr::Let(x, a, b) => if sp + 1 > usize::MAX {
            None
        } else {
            match compile_spec(*a, env, sp, count) {
                Some((c1, k1)) => match compile_spec(*b, env.insert(x@, sp as usize), sp + 1, k1) {
                    Some((c2, k2)) => Some(
                        (c1 + "\n"@ + ("mov [rsp - 8*"@ + nat_text(sp as nat) + "], rax"@) + "\n"@
                            + c2, k2),
                    ),
                    None => None,
                },
                None => None,
            }
        },
        Expr::Plus(a, b) => if sp + 1 > usize::MAX {
            None
        } else {
            match compile_spec(*a, env, sp, count) {
                Some((c1, k1)) => match compile_spec(*b, env, sp + 1, k1) {
                    Some((c2, k2)) => Some(
                        (c1 + "\n                 mov [rsp - 8*"@ + nat_text(sp as nat)
                            + "], rax\n                 "@ + c2
                            + "\n                 add rax, [rsp - 8*"@ + nat_text(sp as nat)
                            + "]\n                "@, k2),
                    ),
                    None => None,
                },
                None => None,
            }
        },
        Expr::If(a, b, c) => if count + 1 > i32::MAX {
            None
        } else {
            match compile_spec(*a, env, sp, count + 1) {
                Some((c1, k1)) => match compile_spec(*b, env, sp, k1) {
                    Some((c2, k2)) => match compile_spec(*c, env, sp, k2) {
                        Some((c3, k3)) => Some(
                            (c1 + "\n                      cmp rax, 0\n                      je label_else_"@
                                + int_text(k3) + "\n                      "@ + c2
                                + "\n                      jmp label_exit_"@ + int_text(k3)
                                + "\n                    label_else_"@ + int_text(k3)
                                + ":\n                      "@ + c3
                                + "\n                    label_exit_"@ + int_text(k3) + ":"@, k3),
                        ),
                        None => None,
                    },
                    None => None,
                },
                None => None,
            }
        },
        Expr::True => Some(("mov rax, 1"@, count)),
        Expr::False => Some(("mov rax, 0"@, count)),
        Expr::Eq(_, _) => None,
    }
}

/// The code that leaves the value of `e` in `rax` (true as 1, false as 0);
/// each conditional draws a number for its labels from `count`.
pub fn compile_expr(e: &Expr, env: &im::HashMap<String, usize>, sp: usize, count: &mut i32) -> (r:
    String)
    requires
        compile_spec(*e, usize_entries(*env), sp as int, *old(count) as int) is Some,
    ensures
        compile_spec(*e, usize_entries(*env), sp as int, *old(count) as int) == Some(
            (r@, *final(count) as int),
        ),
    decreases e,
{
    match e {
        Expr::Num(n) => {
            let mut out = String::from_str("mov rax, ");
            push_int(&mut out, *n as i64);
            out
        },
        Expr::Add1(subexpr) => {
            let mut out = compile_expr(subexpr, env, sp, count);
            out.append("\nadd rax, 1");
            out
        },
        Expr::Sub1(subexpr) => {
            let mut out = compile_expr(subexpr, env, sp, count);
            out.append("\nsub rax, 1");
            out
        },
        Expr::Neg(subexpr) => {
            let mut out = compile_expr(subexpr, env, sp, count);
            out.append("\nneg rax");
            out
        },
        Expr::Var(x) => {
            let x_pos = usize_env_get(env, x).unwrap();
            let mut out = String::from_str("mov rax, [rsp - 8*");
            push_nat(&mut out, x_pos as u64);
            out.append("]");
            out
        },
        Expr::Let(x, e1, e2) => {
            let e1_code = compile_expr(e1, env, sp, count);
            let x_pos = sp;
            let mut x_save = String::from_str("mov [rsp - 8*");
            push_nat(&mut x_save, x_pos as u64);
            x_save.append("], rax");
            let new_env = usize_env_update(env, x.clone(), x_pos);
            let e2_code = compile_expr(e2, &new_env, sp + 1, count);
            let mut out = e1_code;
            out.append("\n");
            out.append(x_save.as_str());
            out.append("\n");
            out.append(e2_code.as_str());
            out
        },
        Expr::Plus(e1, e2) => {
            let e1_code = compile_expr(e1, env, sp, count);
            let e2_code = compile_expr(e2, env, sp + 1, count);
            let mut out = e1_code;
            out.append("\n                 mov [rsp - 8*");
            push_nat(&mut out, sp as u64);
            out.append("], rax\n                 ");
            out.append(e2_code.as_str());
            out.append("\n                 add rax, [rsp - 8*");
            push_nat(&mut out, sp as u64);
            out.append("]\n                ");
            out
        },
        Expr::If(e_cond, e_then, e_else) => {
            *count = *count + 1;
            let e_cond_code = compile_expr(e_cond, env, sp, count);
            let e_then_code = compile_expr(e_then, env, sp, count);
            let e_else_code = compile_expr(e_else, env, sp, count);
            let mut out = e_cond_code;
            out.append("\n                      cmp rax, 0\n                      je label_else_");
            push_int(&mut out, *count as i64);
            out.append("\n                      ");
            out.append(e_then_code.as_str());
            out.append("\n                      jmp label_exit_");
            push_int(&mut out, *count as i64);
            out.append("\n                    label_else_");
            push_int(&mut out, *count as i64);
            out.append(":\n                      ");
            out.append(e_else_code.as_str());
            out.append("\n                    label_exit_");
            push_int(&mut out, *count as i64);
            out.append(":");
            out
        },
        Expr::True => String::from_str("mov rax, 1"),
        Expr::False => String::from_str("mov rax, 0"),
        Expr::Eq(_, _) => {
            proof {
                assert(false);
            }
            String::new()
        },
    }
}

/// The assembly program around the code of a main expression.
pub open spec fn program_text(code: Seq<char>) -> Seq<char> {
    "section .text\nglobal our_code_starts_here\nour_code_starts_here:\n  "@ + code + "\n  ret\n"@
}

/// The assembly program of an expression, its variables saved from slot 1
/// on and its labels numbered from 1.
pub fn compile_program(e: &Expr) -> (r: String)
    requires
        compile_spec(*e, Map::empty(), 1, 0) is Some,
    ensures
        compile_spec(*e, Map::empty(), 1, 0) matches Some((c, _)) && r@ == program_text(c),
{
    let mut count: i32 = 0;
    let env = usize_env_new();
    proof {
        assert(usize_entries(env) =~= Map::empty());
    }
    let result = compile_expr(e, &env, 1, &mut count);
    let mut out = String::from_str(
        "section .text\nglobal our_code_starts_here\nour_code_starts_here:\n  ",
    );
    out.append(result.as_str());
    out.append("\n  ret\n");
    out
}


/// Whether code generation for `e` succeeds, and the counter after it.
pub fn check_expr(e: &Expr, env: &im::HashMap<String, usize>, sp: usize, count: i32) -> (r: Option<
    i32,
>)
    ensures
        match compile_spec(*e, usize_entries(*env), sp as int, count as int) {
            Some((_, k)) => r is Some && r->0 == k,
            None => r is None,
        },
    decreases e,
{
    match e {
        Expr::Num(_) | Expr::True | Expr::False => Some(count),
        Expr::Add1(a) | Expr::Sub1(a) | Expr::Neg(a) => check_expr(a, env, sp, count),
        Expr::Var(x) => {
            if usize_env_get(env, x).is_some() {
                Some(count)
            } else {
                None
            }
        },
        Expr::Let(x, a, b) => {
            if sp == usize::MAX {
                return None;
            }
            let k1 = check_expr(a, env, sp, count)?;
            let new_env = usize_env_update(env, x.clone(), sp);
            check_expr(b, &new_env, sp + 1, k1)
        },
        Expr::Plus(a, b) => {
            if sp == usize::MAX {
                return None;
            }
            let k1 = check_expr(a, env, sp, count)?;
            check_expr(b, env, sp + 1, k1)
        },
        Expr::If(a, b, c) => {
            if count == i32::MAX {
                return None;
            }
            let k1 = check_expr(a, env, sp, count + 1)?;
            let k2 = check_expr(b, env, sp, k1)?;
            check_expr(c, env, sp, k2)
        },
        Expr::Eq(_, _) => None,
    }
}

/// The assembly program of an expression, or `None` for the expressions on
/// which `compile_program` panics.
pub fn try_compile_program(e: &Expr) -> (r: Option<String>)
    ensures
        r matches Some(t) ==> compile_spec(*e, Map::empty(), 1, 0) matches Some((c, _)) && t@
            == program_text(c),
        r is None ==> compile_spec(*e, Map::empty(), 1, 0) is None,
{
    let env = usize_env_new();
    proof {
        assert(usize_entries(env) =~= Map::empty());
    }
    if check_expr(e, &env, 1, 0).is_none() {
        return None;
    }
    Some(compile_program(e))
}

/// How many label numbers the code of `e` draws: one for each conditional.
pub open spec fn label_draws(e: Expr) -> nat
    decreases e,
{
    match e {
        Expr::If(a, b, c) => 1 + label_draws(*a) + label_draws(*b) + label_draws(*c),
        Expr::Add1(a) | Expr::Sub1(a) | Expr::Neg(a) => label_draws(*a),
        Expr::Let(_, a, b) | Expr::Plus(a, b) | Expr::Eq(a, b) => label_draws(*a) + label_draws(*b),
        Expr::Num(_) | Expr::Var(_) | Expr::True | Expr::False => 0,
    }
}

/// Compiling an expression advances the label counter by exactly the number
/// of conditionals in it.
pub proof fn lemma_counter_advance(e: Expr, env: Map<Seq<char>, usize>, sp: int, count: int)
    requires
        compile_spec(e, env, sp, count) is Some,
    ensures
        compile_spec(e, env, sp, count)->Some_0.1 == count + label_draws(e),
    decreases e,
{
    match e {
        Expr::Add1(a) | Expr::Sub1(a) | Expr::Neg(a) => {
            lemma_counter_advance(*a, env, sp, count);
        },
        Expr::Let(x, a, b) => {
            lemma_counter_advance(*a, env, sp, count);
            let k1 = compile_spec(*a, env, sp, count)->Some_0.1;
            lemma_counter_advance(*b, env.insert(x@, sp as usize), sp + 1, k1);
        },
        Expr::Plus(a, b) => {
            lemma_counter_advance(*a, env, sp, count);
            let k1 = compile_spec(*a, env, sp, count)->Some_0.1;
            lemma_counter_advance(*b, env, sp + 1, k1);
        },
        Expr::If(a, b, c) => {
            lemma_counter_advance(*a, env, sp, count + 1);
            let k1 = compile_spec(*a, env, sp, count + 1)->Some_0.1;
            lemma_counter_advance(*b, env, sp, k1);
            let k2 = compile_spec(*b, env, sp, k1)->Some_0.1;
            lemma_counter_advance(*c, env, sp, k2);
        },
        _ => {},
    }
}

} // verus!
