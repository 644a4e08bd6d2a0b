//! Code generation for expressions of the third stage.
use vstd::prelude::*;
use crate::env::{usize_entries, usize_env_get, usize_env_new, usize_env_update};
use crate::text::{int_text, join_lines, lemma_int_text_injective, nat_text, push_int, push_nat};
use super::expr::Expr;

verus! {

/// The code that stops with error `code` unless `rax` holds a number.
pub open spec fn test_number_text(code: int) -> Seq<char> {
    "mov rcx, rax\n             and rcx, 1\n             cmp rcx, 0\n             mov rdi, "@ + nat_text(code as nat)
        + "\n             jne label_error"@
}

/// Code that checks that `rax` holds a number (its low bit is clear)
/// and otherwise jumps to the error handler with `code` in `rdi`.
pub fn test_number(code: usize) -> (r: String)
    ensures
        r@ == test_number_text(code as int),
{
    let mut out = String::from_str(
        "mov rcx, rax\n             and rcx, 1\n             cmp rcx, 0\n             mov rdi, ",
    );
    push_nat(&mut out, code as u64);
    out.append("\n             jne label_error");
    out
}

/// The label `prefix_count`.
pub open spec fn label_text(prefix: Seq<char>, count: int) -> Seq<char> {
    prefix + "_"@ + int_text(count)
}

/// The label made of `prefix`, an underscore and the decimal `count`.
pub fn label(prefix: String, count: &i32) -> (r: String)
    ensures
        r@ == label_text(prefix@, *count as int),
{
    let mut out = prefix;
    out.append("_");
    push_int(&mut out, *count as i64);
    out
}

/// The code of `e` with variables at the frame slots of `env`, the next free
/// slot `sp`, label counter `count` and the label that `break` jumps to, with
/// the counter after it; `None` where code generation panics or overflows:
/// an unbound variable, or a counter or slot out of range.
pub open spec fn compile_spec(
    e: Expr,
    env: Map<Seq<char>, usize>,
    sp: int,
    count: int,
    brk: Seq<char>,
) -> Option<(Seq<char>, int)>
    decreases e,
{
    match e {
        Expr::Num(n) => Some(("mov rax, "@ + int_text((n << 1) as int), count)),
        Expr::Add1(a) => match compile_spec(*a, env, sp, count, brk) {
            Some((c, k)) => Some((c + "\nadd rax, 2"@, k)),
            None => None,
        },
        Expr::Sub1(a) => match compile_spec(*a, env, sp, count, brk) {
            Some((c, k)) => Some((c + "\nsub rax, 2"@, k)),
            None => None,
        },
        Expr::Neg(a) => match compile_spec(*a, env, sp, count, brk) {
            Some((c, k)) => Some((c + "\nneg rax"@, k)),
            None => None,
        },
        Expr::Var(x) => if env.dom().contains(x@) {
            Some(("mov rax, [rsp - 8*"@ + nat_text(env[x@] as nat) + "]"@, count))
        } else {
            None
        },
        Expr::Let(x, a, b) => if sp + 1 > usize::MAX {
            None
        } else {
            match compile_spec(*a, env, sp, count, brk) {
                Some((c1, k1)) => match compile_spec(
                    *b,
                    env.insert(x@, sp as usize),
                    sp + 1,
                    k1,
                    brk,
                ) {
                    Some((c2, k2)) => Some(
                        (c1 + "\n"@ + ("mov [rsp - 8*"@ + nat_text(sp as nat) + "], rax"@) + "\n"@
                            + c2, k2),
                    ),
                    None => None,
                },
                None => None,
            }
        },
        Expr::Plus(a, b) => if sp + 1 > usize::MAX {
            None
        } else {
            match compile_spec(*a, env, sp, count, brk) {
                Some((c1, k1)) => match compile_spec(*b, env, sp + 1, k1, brk) {
                    Some((c2, k2)) => Some(
                        (c1 + "\n                 "@ + test_number_text(99)
                            + "\n                 mov [rsp - 8*"@ + nat_text(sp as nat)
                            + "], rax\n                 "@ + c2 + "\n                 "@
                            + test_number_text(33) + "\n                 add rax, [rsp - 8*"@
                            + nat_text(sp as nat) + "]\n                "@, k2),
                    ),
                    None => None,
                },
                None => None,
            }
        },
        Expr::If(a, b, c) => if count + 1 > i32::MAX {
            None
        } else {
            match compile_spec(*a, env, sp, count + 1, brk) {
                Some((c1, k1)) => match compile_spec(*b, env, sp, k1, brk) {
                    Some((c2, k2)) => match compile_spec(*c, env, sp, k2, brk) {
                        Some((c3, k3)) => Some(
                            (c1 + "\n                      cmp rax, 1\n                      je label_else_"@ + int_text(k3)
                                + "\n                      "@ + c2
                                + "\n                      jmp label_exit_"@ + int_text(k3)
                                + "\n                    label_else_"@ + int_text(k3)
                                + ":\n                      "@ + c3
                                + "\n                    label_exit_"@ + int_text(k3) + ":"@, k3),
                        ),
                        None => None,
                    },
                    None => None,
                },
                None => None,
            }
        },
        Expr::Input => Some(("mov rax, [rsp - 8]"@, count)),
        Expr::True => Some(("mov rax, 3"@, count)),
        Expr::False => Some(("mov rax, 1"@, count)),
        Expr::Eq(a, b) => if sp + 1 > usize::MAX {
            None
        } else {
            match compile_spec(*a, env, sp, count, brk) {
                Some((c1, k1)) => match compile_spec(*b, env, sp + 1, k1, brk) {
                    Some((c2, k2)) => if k2 + 1 > i32::MAX {
                        None
                    } else {
                        let exit = label_text("eq_exit"@, k2 + 1);
                        Some(
                            (c1 + "\n                 mov [rsp - 8*"@ + nat_text(sp as nat)
                                + "], rax\n                 "@ + c2
                                + "\n                 cmp rax, [rsp - 8*"@ + nat_text(sp as nat)
                                + "]\n                 mov rax, 1\n                 jne "@ + exit
                                + "\n                 mov rax, 3\n               "@ + exit
                                + ":\n                "@, k2 + 1),
                        )
                    },
                    None => None,
                },
                None => None,
            }
        },
        Expr::Assign(x, a) => if env.dom().contains(x@) {
            match compile_spec(*a, env, sp, count, brk) {
                Some((c, k)) => Some(
                    (c + "\n                     mov [rsp - 8*"@ + nat_text(env[x@] as nat)
                        + "], rax"@, k),
                ),
                None => None,
            }
        } else {
            None
        },
        Expr::Block(es) => match compile_block_spec(es@, env, sp, count, brk) {
            Some((codes, k)) => Some((join_lines(codes), k)),
            None => None,
        },
        Expr::Loop(a) => if count + 1 > i32::MAX {
            None
        } else {
            let start = label_text("loop_start"@, count + 1);
            let exit = label_text("loop_exit"@, count + 1);
            match compile_spec(*a, env, sp, count + 1, exit) {
                Some((c, k)) => Some(
                    (start + ":\n                        "@ + c + "\n                        jmp "@
                        + start + "\n                     "@ + exit + ":"@, k),
                ),
                None => None,
            }
        },
        Expr::Break(a) => match compile_spec(*a, env, sp, count, brk) {
            Some((c, k)) => Some((c + "\n                     jmp "@ + brk, k)),
            None => None,
        },
    }
}

/// The codes of the expressions of a block, compiled one after the other,
/// with the counter after the last.
pub open spec fn compile_block_spec(
    es: Seq<Expr>,
    env: Map<Seq<char>, usize>,
    sp: int,
    count: int,
    brk: Seq<char>,
) -> Option<(Seq<Seq<char>>, int)>
    decreases es,
{
    if es.len() == 0 {
        Some((Seq::empty(), count))
    } else {
        match compile_block_spec(es.drop_last(), env, sp, count, brk) {
            Some((codes, k)) => match compile_spec(es.last(), env, sp, k, brk) {
                Some((c, k2)) => Some((codes.push(c), k2)),
                None => None,
            },
            None => None,
        }
    }
}


proof fn lemma_block_prefix(
    es: Seq<Expr>,
    j: int,
    env: Map<Seq<char>, usize>,
    sp: int,
    count: int,
    brk: Seq<char>,
)
    requires
        0 <= j <= es.len(),
        compile_block_spec(es, env, sp, count, brk) is Some,
    ensures
        compile_block_spec(es.take(j), env, sp, count, brk) is Some,
    decreases es.len(),
{
    if j == es.len() {
        assert(es.take(j) =~= es);
    } else {
        lemma_block_prefix(es.drop_last(), j, env, sp, count, brk);
        assert(es.drop_last().take(j) =~= es.take(j));
    }
}

/// The code of `e`, as `compile_spec` states it; the expressions on which
/// code generation panics are left out.
pub fn compile_expr(
    e: &Expr,
    env: &im::HashMap<String, usize>,
    sp: usize,
    count: &mut i32,
    brk: &str,
) -> (r: String)
    requires
        compile_spec(*e, usize_entries(*env), sp as int, *old(count) as int, brk@) is Some,
    ensures
        compile_spec(*e, usize_entries(*env), sp as int, *old(count) as int, brk@) == Some(
            (r@, *final(count) as int),
        ),
    decreases e,
{
    match e {
        Expr::Num(n) => {
            let mut out = String::from_str("mov rax, ");
            push_int(&mut out, (*n << 1) as i64);
            out
        },
        Expr::Add1(a) => {
            let mut out = compile_expr(a, env, sp, count, brk);
            out.append("\nadd rax, 2");
            out
        },
        Expr::Sub1(a) => {
            let mut out = compile_expr(a, env, sp, count, brk);
            out.append("\nsub rax, 2");
            out
        },
        Expr::Neg(a) => {
            let mut out = compile_expr(a, env, sp, count, brk);
            out.append("\nneg rax");
            out
        },
        Expr::Var(x) => {
            let x_pos = usize_env_get(env, x).unwrap();
            let mut out = String::from_str("mov rax, [rsp - 8*");
            push_nat(&mut out, x_pos as u64);
            out.append("]");
            out
        },
        Expr::Let(x, a, b) => {
            let c1 = compile_expr(a, env, sp, count, brk);
            let x_pos = sp;
            let mut x_save = String::from_str("mov [rsp - 8*");
            push_nat(&mut x_save, x_pos as u64);
            x_save.append("], rax");
            let new_env = usize_env_update(env, x.clone(), x_pos);
            let c2 = compile_expr(b, &new_env, sp + 1, count, brk);
            let mut out = c1;
            out.append("\n");
            out.append(x_save.as_str());
            out.append("\n");
            out.append(c2.as_str());
            out
        },
        Expr::Plus(a, b) => {
            let c1 = compile_expr(a, env, sp, count, brk);
            let c2 = compile_expr(b, env, sp + 1, count, brk);
            let t1 = test_number(99);
            let t2 = test_number(33);
            let mut out = c1;
            out.append("\n                 ");
            out.append(t1.as_str());
            out.append("\n                 mov [rsp - 8*");
            push_nat(&mut out, sp as u64);
            out.append("], rax\n                 ");
            out.append(c2.as_str());
            out.append("\n                 ");
            out.append(t2.as_str());
            out.append("\n                 add rax, [rsp - 8*");
            push_nat(&mut out, sp as u64);
            out.append("]\n                ");
            out
        },
        Expr::If(a, b, c) => {
            *count = *count + 1;
            let c1 = compile_expr(a, env, sp, count, brk);
            let c2 = compile_expr(b, env, sp, count, brk);
            let c3 = compile_expr(c, env, sp, count, brk);
            let mut out = c1;
            out.append("\n                      cmp rax, 1\n                      je label_else_");
            push_int(&mut out, *count as i64);
            out.append("\n                      ");
            out.append(c2.as_str());
            out.append("\n                      jmp label_exit_");
            push_int(&mut out, *count as i64);
            out.append("\n                    label_else_");
            push_int(&mut out, *count as i64);
            out.append(":\n                      ");
            out.append(c3.as_str());
            out.append("\n                    label_exit_");
            push_int(&mut out, *count as i64);
            out.append(":");
            out
        },
        Expr::Input => String::from_str("mov rax, [rsp - 8]"),
        Expr::True => String::from_str("mov rax, 3"),
        Expr::False => String::from_str("mov rax, 1"),
        Expr::Eq(a, b) => {
            let c1 = compile_expr(a, env, sp, count, brk);
            let c2 = compile_expr(b, env, sp + 1, count, brk);
            *count = *count + 1;
            let exit = label(String::from_str("eq_exit"), &*count);
            let mut out = c1;
            out.append("\n                 mov [rsp - 8*");
            push_nat(&mut out, sp as u64);
            out.append("], rax\n                 ");
            out.append(c2.as_str());
            out.append("\n                 cmp rax, [rsp - 8*");
            push_nat(&mut out, sp as u64);
            out.append("]\n                 mov rax, 1\n                 jne ");
            out.append(exit.as_str());
            out.append("\n                 mov rax, 3\n               ");
            out.append(exit.as_str());
            out.append(":\n                ");
            out
        },
        Expr::Assign(x, a) => {
            let x_pos = usize_env_get(env, x).unwrap();
            let mut out = compile_expr(a, env, sp, count, brk);
            out.append("\n                     mov [rsp - 8*");
            push_nat(&mut out, x_pos as u64);
            out.append("], rax");
            out
        },
        Expr::Block(es) => {
            let ghost count0 = *count;
            let ghost mut codes: Seq<Seq<char>> = Seq::empty();
            let mut out = String::new();
            let mut i: usize = 0;
            proof {
                assert(es@.take(0) =~= Seq::<Expr>::empty());
            }
            while i < es.len()
                invariant
                    *e == Expr::Block(*es),
                    0 <= i <= es@.len(),
                    compile_block_spec(es@, usize_entries(*env), sp as int, count0 as int, brk@) is Some,
                    compile_block_spec(
                        es@.take(i as int),
                        usize_entries(*env),
                        sp as int,
                        count0 as int,
                        brk@,
                    ) == Some((codes, *count as int)),
                    out@ == join_lines(codes),
                    codes.len() == i,
                decreases es@.len() - i,
            {
                proof {
                    lemma_block_prefix(
                        es@,
                        i + 1,
                        usize_entries(*env),
                        sp as int,
                        count0 as int,
                        brk@,
                    );
                    assert(es@.take(i + 1).drop_last() =~= es@.take(i as int));
                    assert(decreases_to!(*es => es[i as int]));
                    assert(decreases_to!(*e => (*e)->Block_0));
                }
                let c = compile_expr(&es[i], env, sp, count, brk);
                if i > 0 {
                    out.append("\n");
                }
                out.append(c.as_str());
                proof {
                    let old_codes = codes;
                    codes = codes.push(c@);
                    assert(codes.drop_last() =~= old_codes);
                    if i == 0 {
                        assert(out@ =~= c@);
                    }
                }
                i = i + 1;
            }
            proof {
                assert(es@.take(es@.len() as int) =~= es@);
            }
            out
        },
        Expr::Loop(a) => {
            *count = *count + 1;
            let loop_start = label(String::from_str("loop_start"), &*count);
            let loop_exit = label(String::from_str("loop_exit"), &*count);
            let c = compile_expr(a, env, sp, count, loop_exit.as_str());
            let mut out = loop_start.clone();
            out.append(":\n                        ");
            out.append(c.as_str());
            out.append("\n                        jmp ");
            out.append(loop_start.as_str());
            out.append("\n                     ");
            out.append(loop_exit.as_str());
            out.append(":");
            out
        },
        Expr::Break(a) => {
            let mut out = compile_expr(a, env, sp, count, brk);
            out.append("\n                     jmp ");
            out.append(brk);
            out
        },
    }
}


/// The assembly program around the code of a main expression: the error
/// handler, the input saved in the first slot, and the exit label.
pub open spec fn program_text(code: Seq<char>) -> Seq<char> {
    "section .text\nglobal our_code_starts_here\nextern snek_error\nlabel_error:\n  push rsp\n  call snek_error\nour_code_starts_here:\n  mov [rsp - 8], rdi\n  "@
        + code + "\n"@ + "time_to_exit"@ + ":\n  ret\n"@
}

/// The assembly program of an expression: its variables from slot 2 on,
/// labels numbered from 1, `break` outside a loop leaving the program.
pub fn compile_program(e: &Expr) -> (r: String)
    requires
        compile_spec(*e, Map::empty(), 2, 0, "time_to_exit"@) is Some,
    ensures
        compile_spec(*e, Map::empty(), 2, 0, "time_to_exit"@) matches Some((c, _)) && r@
            == program_text(c),
{
    let mut count: i32 = 0;
    let time_to_exit = "time_to_exit";
    let env = usize_env_new();
    proof {
        assert(usize_entries(env) =~= Map::empty());
    }
    let result = compile_expr(e, &env, 2, &mut count, time_to_exit);
    let mut out = String::from_str(
        "section .text\nglobal our_code_starts_here\nextern snek_error\nlabel_error:\n  push rsp\n  call snek_error\nour_code_starts_here:\n  mov [rsp - 8], rdi\n  ",
    );
    out.append(result.as_str());
    out.append("\n");
    out.append(time_to_exit);
    out.append(":\n  ret\n");
    out
}

/// Whether code generation for `e` succeeds, and the counter after it.
pub fn check_expr(
    e: &Expr,
    env: &im::HashMap<String, usize>,
    sp: usize,
    count: i32,
    Ghost(brk): Ghost<Seq<char>>,
) -> (r: Option<i32>)
    ensures
        match compile_spec(*e, usize_entries(*env), sp as int, count as int, brk) {
            Some((_, k)) => r is Some && r->0 == k,
            None => r is None,
        },
    decreases e,
{
    match e {
        Expr::Num(_) | Expr::Input | Expr::True | Expr::False => Some(count),
        Expr::Add1(a) | Expr::Sub1(a) | Expr::Neg(a) => {
            check_expr(a, env, sp, count, Ghost(brk))
        },
        Expr::Break(a) => check_expr(a, env, sp, count, Ghost(brk)),
        Expr::Var(x) => {
            if usize_env_get(env, x).is_some() {
                Some(count)
            } else {
                None
            }
        },
        Expr::Let(x, a, b) => {
            if sp == usize::MAX {
                return None;
            }
            let k1 = check_expr(a, env, sp, count, Ghost(brk))?;
            let new_env = usize_env_update(env, x.clone(), sp);
            check_expr(b, &new_env, sp + 1, k1, Ghost(brk))
        },
        Expr::Plus(a, b) => {
            if sp == usize::MAX {
                return None;
            }
            let k1 = check_expr(a, env, sp, count, Ghost(brk))?;
            check_expr(b, env, sp + 1, k1, Ghost(brk))
        },
        Expr::Eq(a, b) => {
            if sp == usize::MAX {
                return None;
            }
            let k1 = check_expr(a, env, sp, count, Ghost(brk))?;
            let k2 = check_expr(b, env, sp + 1, k1, Ghost(brk))?;
            if k2 == i32::MAX {
                None
            } else {
                Some(k2 + 1)
            }
        },
        Expr::If(a, b, c) => {
            if count == i32::MAX {
                return None;
            }
            let k1 = check_expr(a, env, sp, count + 1, Ghost(brk))?;
            let k2 = check_expr(b, env, sp, k1, Ghost(brk))?;
            check_expr(c, env, sp, k2, Ghost(brk))
        },
        Expr::Assign(x, a) => {
            if usize_env_get(env, x).is_some() {
                check_expr(a, env, sp, count, Ghost(brk))
            } else {
                None
            }
        },
        Expr::Block(es) => {
            proof {
                assert(decreases_to!(*e => (*e)->Block_0));
            }
            check_block(es, env, sp, count, Ghost(brk))
        },
        Expr::Loop(a) => {
            if count == i32::MAX {
                return None;
            }
            check_expr(a, env, sp, count + 1, Ghost(label_text("loop_exit"@, count + 1)))
        },
    }
}

/// Whether code generation for the expressions of a block succeeds, and the
/// counter after them.
fn check_block(
    es: &Vec<Expr>,
    env: &im::HashMap<String, usize>,
    sp: usize,
    count: i32,
    Ghost(brk): Ghost<Seq<char>>,
) -> (r: Option<i32>)
    ensures
        match compile_block_spec(es@, usize_entries(*env), sp as int, count as int, brk) {
            Some((_, k)) => r is Some && r->0 == k,
            None => r is None,
        },
    decreases es,
{
    let ghost envm = usize_entries(*env);
    let mut k = count;
    let mut i: usize = 0;
    proof {
        assert(es@.take(0) =~= Seq::<Expr>::empty());
    }
    while i < es.len()
        invariant
            envm == usize_entries(*env),
            0 <= i <= es@.len(),
            compile_block_spec(es@.take(i as int), envm, sp as int, count as int, brk) matches Some(
                (_, k0),
            ) && k0 == k,
        decreases es@.len() - i,
    {
        proof {
            assert(es@.take(i + 1).drop_last() =~= es@.take(i as int));
            assert(decreases_to!(*es => es[i as int]));
        }
        match check_expr(&es[i], env, sp, k, Ghost(brk)) {
            Some(k2) => {
                k = k2;
            },
            None => {
                proof {
                    if compile_block_spec(es@, envm, sp as int, count as int, brk) is Some {
                        lemma_block_prefix(es@, i + 1, envm, sp as int, count as int, brk);
                    }
                }
                return None;
            },
        }
        i = i + 1;
    }
    proof {
        assert(es@.take(es@.len() as int) =~= es@);
    }
    Some(k)
}

/// The assembly program of an expression, or `None` for the expressions on
/// which `compile_program` panics.
pub fn try_compile_program(e: &Expr) -> (r: Option<String>)
    ensures
        r matches Some(t) ==> compile_spec(*e, Map::empty(), 2, 0, "time_to_exit"@) matches Some(
            (c, _),
        ) && t@ == program_text(c),
        r is None ==> compile_spec(*e, Map::empty(), 2, 0, "time_to_exit"@) is None,
{
    let env = usize_env_new();
    proof {
        assert(usize_entries(env) =~= Map::empty());
    }
    if check_expr(e, &env, 2, 0, Ghost("time_to_exit"@)).is_none() {
        return None;
    }
    Some(compile_program(e))
}

/// Labels made with the same prefix and different numbers differ.
pub proof fn lemma_label_distinct(prefix: Seq<char>, c1: int, c2: int)
    requires
        c1 != c2,
    ensures
        label_text(prefix, c1) != label_text(prefix, c2),
{
    reveal_strlit("_");
    let n: int = (prefix.len() + 1) as int;
    if label_text(prefix, c1) == label_text(prefix, c2) {
        assert(label_text(prefix, c1).skip(n) =~= int_text(c1));
        assert(label_text(prefix, c2).skip(n) =~= int_text(c2));
        lemma_int_text_injective(c1, c2);
    }
}

/// How many label numbers the code of `e` draws: one for each conditional,
/// comparison and loop.
pub open spec fn label_draws(e: Expr) -> nat
    decreases e,
{
    match e {
        Expr::If(a, b, c) => 1 + label_draws(*a) + label_draws(*b) + label_draws(*c),
        Expr::Eq(a, b) => 1 + label_draws(*a) + label_draws(*b),
        Expr::Loop(a) => 1 + label_draws(*a),
        Expr::Add1(a) | Expr::Sub1(a) | Expr::Neg(a) | Expr::Assign(_, a) | Expr::Break(
            a,
        ) => label_draws(*a),
        Expr::Let(_, a, b) | Expr::Plus(a, b) => label_draws(*a) + label_draws(*b),
        Expr::Block(es) => block_draws(es@),
        Expr::Num(_) | Expr::Var(_) | Expr::Input | Expr::True | Expr::False => 0,
    }
}

/// How many label numbers the codes of the expressions of `es` draw.
pub open spec fn block_draws(es: Seq<Expr>) -> nat
    decreases es,
{
    if es.len() == 0 {
        0
    } else {
        block_draws(es.drop_last()) + label_draws(es.last())
    }
}

/// Compiling an expression advances the label counter by exactly the number
/// of conditionals, comparisons and loops in it.
pub proof fn lemma_counter_advance(
    e: Expr,
    env: Map<Seq<char>, usize>,
    sp: int,
    count: int,
    brk: Seq<char>,
)
    requires
        compile_spec(e, env, sp, count, brk) is Some,
    ensures
        compile_spec(e, env, sp, count, brk)->Some_0.1 == count + label_draws(e),
    decreases e,
{
    match e {
        Expr::Add1(a) | Expr::Sub1(a) | Expr::Neg(a) | Expr::Assign(_, a) | Expr::Break(a) => {
            lemma_counter_advance(*a, env, sp, count, brk);
        },
        Expr::Let(x, a, b) => {
            lemma_counter_advance(*a, env, sp, count, brk);
            let k1 = compile_spec(*a, env, sp, count, brk)->Some_0.1;
            lemma_counter_advance(*b, env.insert(x@, sp as usize), sp + 1, k1, brk);
        },
        Expr::Plus(a, b) | Expr::Eq(a, b) => {
            lemma_counter_advance(*a, env, sp, count, brk);
            let k1 = compile_spec(*a, env, sp, count, brk)->Some_0.1;
            lemma_counter_advance(*b, env, sp + 1, k1, brk);
        },
        Expr::If(a, b, c) => {
            lemma_counter_advance(*a, env, sp, count + 1, brk);
            let k1 = compile_spec(*a, env, sp, count + 1, brk)->Some_0.1;
            lemma_counter_advance(*b, env, sp, k1, brk);
            let k2 = compile_spec(*b, env, sp, k1, brk)->Some_0.1;
            lemma_counter_advance(*c, env, sp, k2, brk);
        },
        Expr::Loop(a) => {
            lemma_counter_advance(*a, env, sp, count + 1, label_text("loop_exit"@, count + 1));
        },
        Expr::Block(es) => {
            lemma_block_counter_advance(es@, env, sp, count, brk);
        },
        _ => {},
    }
}

/// Compiling a block advances the label counter by the draws of its
/// expressions.
pub proof fn lemma_block_counter_advance(
    es: Seq<Expr>,
    env: Map<Seq<char>, usize>,
    sp: int,
    count: int,
    brk: Seq<char>,
)
    requires
        compile_block_spec(es, env, sp, count, brk) is Some,
    ensures
        compile_block_spec(es, env, sp, count, brk)->Some_0.1 == count + block_draws(es),
    decreases es,
{
    if es.len() > 0 {
        lemma_block_counter_advance(es.drop_last(), env, sp, count, brk);
        let k = compile_block_spec(es.drop_last(), env, sp, count, brk)->Some_0.1;
        lemma_counter_advance(es.last(), env, sp, k, brk);
    }
}

} // verus!
