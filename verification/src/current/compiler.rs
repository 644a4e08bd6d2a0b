//! Code generation for programs of the fifth stage.
use vstd::prelude::*;
use crate::env::{i32_entries, i32_env_get, i32_env_new, i32_env_update};
use crate::text::{int_text, join_lines, lemma_int_text_injective, nat_text, push_int, push_nat};
use crate::week5_vec::expr::{Defn, Expr, Prog};

verus! {

/// The tagged value of `false`.
pub const FALSE: usize = 3;

/// The tagged value of `true`.
pub const TRUE: usize = 7;

/// The code that stops with error `code` unless `rax` holds a number.
pub open spec fn test_number_text(code: int) -> Seq<char> {
    "mov rcx, rax\n             and rcx, "@ + nat_text(FALSE as nat)
        + "\n             cmp rcx, 0\n             mov rdi, "@ + nat_text(code as nat)
        + "\n             jne label_error"@
}

/// Code that checks that `rax` holds a number (its two low bits are clear)
/// and otherwise jumps to the error handler with `code` in `rdi`.
pub fn test_number(code: usize) -> (r: String)
    ensures
        r@ == test_number_text(code as int),
{
    let mut out = String::from_str("mov rcx, rax\n             and rcx, ");
    push_nat(&mut out, FALSE as u64);
    out.append("\n             cmp rcx, 0\n             mov rdi, ");
    push_nat(&mut out, code as u64);
    out.append("\n             jne label_error");
    out
}

/// The label `prefix_count`.
pub open spec fn label_text(prefix: Seq<char>, count: int) -> Seq<char> {
    prefix + "_"@ + int_text(count)
}

/// The label made of `prefix`, an underscore and the decimal `count`.
pub fn label(prefix: String, count: &i32) -> (r: String)
    ensures
        r@ == label_text(prefix@, *count as int),
{
    let mut out = prefix;
    out.append("_");
    push_int(&mut out, *count as i64);
    out
}

/// The code of `e` with variables at the frame slots of `env`, the next free
/// slot `sp`, label counter `count` and the label that `break` jumps to, with
/// the counter after it; `None` where code generation panics or overflows:
/// an unbound variable, `<=` or `vec-get`, or a counter or slot out of range.
pub open spec fn compile_spec(
    e: Expr,
    env: Map<Seq<char>, i32>,
    sp: int,
    count: int,
    brk: Seq<char>,
) -> Option<(Seq<char>, int)>
    decreases e,
{
    match e {
        Expr::Num(n) => Some(("mov rax, "@ + int_text((n << 1) as int), count)),
        Expr::Add1(a) => match compile_spec(*a, env, sp, count, brk) {
            Some((c, k)) => Some((c + "\nadd rax, 2"@, k)),
            None => None,
        },
        Expr::Sub1(a) => match compile_spec(*a, env, sp, count, brk) {
            Some((c, k)) => Some((c + "\nsub rax, 2"@, k)),
            None => None,
        },
        Expr::Neg(a) => match compile_spec(*a, env, sp, count, brk) {
            Some((c, k)) => Some((c + "\nneg rax"@, k)),
            None => None,
        },
        Expr::Var(x) => if env.dom().contains(x@) {
            Some(("mov rax, [rbp - 8*"@ + int_text(env[x@] as int) + "]"@, count))
        } else {
            None
        },
        Expr::Let(x, a, b) => if sp + 1 > usize::MAX {
            None
        } else {
            match compile_spec(*a, env, sp, count, brk) {
                Some((c1, k1)) => match compile_spec(
                    *b,
                    env.insert(x@, sp as i32),
                    sp + 1,
                    k1,
                    brk,
                ) {
                    Some((c2, k2)) => Some(
                        (c1 + "\n"@ + ("mov [rbp - 8*"@ + nat_text(sp as nat) + "], rax"@) + "\n"@
                            + c2, k2),
                    ),
                    None => None,
                },
                None => None,
            }
        },
        Expr::Plus(a, b) => if sp + 1 > usize::MAX {
            None
        } else {
            match compile_spec(*a, env, sp, count, brk) {
                Some((c1, k1)) => match compile_spec(*b, env, sp + 1, k1, brk) {
                    Some((c2, k2)) => Some(
                        (c1 + "\n                 "@ + test_number_text(99)
                            + "\n                 mov [rbp - 8*"@ + nat_text(sp as nat)
                            + "], rax\n                 "@ + c2 + "\n                 "@
                            + test_number_text(33) + "\n                 add rax, [rbp - 8*"@
                            + nat_text(sp as nat) + "]\n                "@, k2),
                    ),
                    None => None,
                },
                None => None,
            }
        },
        Expr::Mult(a, b) => if sp + 1 > usize::MAX || 8 * sp > usize::MAX {
            None
        } else {
            match compile_spec(*a, env, sp, count, brk) {
                Some((c1, k1)) => match compile_spec(*b, env, sp + 1, k1, brk) {
                    Some((c2, k2)) => Some(
                        (c1 + "\n                 "@ + test_number_text(99)
                            + "\n                 mov [rbp - "@ + nat_text((8 * sp) as nat)
                            + "], rax\n                 "@ + c2 + "\n                 "@
                            + test_number_text(33)
                            + "\n                 sar rax, 1\n                 imul rax, [rbp - "@
                            + nat_text((8 * sp) as nat) + "]\n                "@, k2),
                    ),
                    None => None,
                },
                None => None,
            }
        },
        Expr::If(a, b, c) => if count + 1 > i32::MAX {
            None
        } else {
            match compile_spec(*a, env, sp, count + 1, brk) {
                Some((c1, k1)) => match compile_spec(*b, env, sp, k1, brk) {
                    Some((c2, k2)) => match compile_spec(*c, env, sp, k2, brk) {
                        Some((c3, k3)) => Some(
                            (c1 + "\n                      cmp rax, "@ + nat_text(FALSE as nat)
                                + "\n                      je label_else_"@ + int_text(k3)
                                + "\n                      "@ + c2
                                + "\n                      jmp label_exit_"@ + int_text(k3)
                                + "\n                    label_else_"@ + int_text(k3)
                                + ":\n                      "@ + c3
                                + "\n                    label_exit_"@ + int_text(k3) + ":"@, k3),
                        ),
                        None => None,
                    },
                    None => None,
                },
                None => None,
            }
        },
        Expr::Input => Some(("mov rax, [rbp - 8]"@, count)),
        Expr::True => Some(("mov rax, "@ + nat_text(TRUE as nat), count)),
        Expr::False => Some(("mov rax, "@ + nat_text(FALSE as nat), count)),
        Expr::Eq(a, b) => if sp + 1 > usize::MAX {
            None
        } else {
            match compile_spec(*a, env, sp, count, brk) {
                Some((c1, k1)) => match compile_spec(*b, env, sp + 1, k1, brk) {
                    Some((c2, k2)) => if k2 + 1 > i32::MAX {
                        None
                    } else {
                        let exit = label_text("eq_exit"@, k2 + 1);
                        Some(
                            (c1 + "\n                 mov [rbp - 8*"@ + nat_text(sp as nat)
                                + "], rax\n                 "@ + c2
                                + "\n                 cmp rax, [rbp - 8*"@ + nat_text(sp as nat)
                                + "]\n                 mov rax, "@ + nat_text(FALSE as nat)
                                + "\n                 jne "@ + exit + "\n                 mov rax, "@
                                + nat_text(TRUE as nat) + "\n               "@ + exit
                                + ":\n                "@, k2 + 1),
                        )
                    },
                    None => None,
                },
                None => None,
            }
        },
        Expr::Assign(x, a) => if env.dom().contains(x@) {
            match compile_spec(*a, env, sp, count, brk) {
                Some((c, k)) => Some(
                    (c + "\n                     mov [rbp - 8*"@ + int_text(env[x@] as int)
                        + "], rax"@, k),
                ),
                None => None,
            }
        } else {
            None
        },
        Expr::Block(es) => match compile_block_spec(es@, env, sp, count, brk) {
            Some((codes, k)) => Some((join_lines(codes), k)),
            None => None,
        },
        Expr::Loop(a) => if count + 1 > i32::MAX {
            None
        } else {
            let start = label_text("loop_start"@, count + 1);
            let exit = label_text("loop_exit"@, count + 1);
            match compile_spec(*a, env, sp, count + 1, exit) {
                Some((c, k)) => Some(
                    (start + ":\n                        "@ + c + "\n                        jmp "@
                        + start + "\n                     "@ + exit + ":"@, k),
                ),
                None => None,
            }
        },
        Expr::Break(a) => match compile_spec(*a, env, sp, count, brk) {
            Some((c, k)) => Some((c + "\n                     jmp "@ + brk, k)),
            None => None,
        },
        Expr::Print(a) => match compile_spec(*a, env, sp, count, brk) {
            Some((c, k)) => Some(
                (c
                    + "\n                     mov rdi, rax\n                     call snek_print\n                    "@,
                k),
            ),
            None => None,
        },
        Expr::Call1(f, a) => match compile_spec(*a, env, sp, count, brk) {
            Some((c, k)) => Some(
                (c + "\n                 push rax\n                 call fun_start_"@ + f@
                    + "\n                 add rsp, 8*1\n                "@, k),
            ),
            None => None,
        },
        Expr::Call2(f, a, b) => if sp + 1 > usize::MAX {
            None
        } else {
            match compile_spec(*a, env, sp, count, brk) {
                Some((c1, k1)) => match compile_spec(*b, env, sp + 1, k1, brk) {
                    Some((c2, k2)) => Some(
                        (c1 + "\n                 mov [rbp - 8*"@ + nat_text(sp as nat)
                            + "], rax\n                 "@ + c2
                            + "\n                 push rax\n                 mov rcx, [rbp - 8*"@
                            + nat_text(sp as nat)
                            + "]\n                 push rcx\n                 call fun_start_"@
                            + f@ + "\n                 add rsp, 8*2\n                "@, k2),
                    ),
                    None => None,
                },
                None => None,
            }
        },
        Expr::Vec(a, b) => if sp + 1 > usize::MAX {
            None
        } else {
            match compile_spec(*a, env, sp, count, brk) {
                Some((c1, k1)) => match compile_spec(*b, env, sp + 1, k1, brk) {
                    Some((c2, k2)) => Some(
                        (c1 + "\n                 mov [rbp - 8*"@ + nat_text(sp as nat)
                            + "], rax\n                 "@ + c2
                            + "\n                 mov rcx, [rbp - 8*"@ + nat_text(sp as nat)
                            + "]\n                 mov [r11], rcx\n                 mov [r11 + 8], rax\n                 mov rax, r11\n                 add rax, 1\n                 add r11, 16"@,
                        k2),
                    ),
                    None => None,
                },
                None => None,
            }
        },
        Expr::Le(_, _) => None,
        Expr::Get(_, _) => None,
    }
}

/// The codes of the expressions of a block, compiled one after the other,
/// with the counter after the last.
pub open spec fn compile_block_spec(
    es: Seq<Expr>,
    env: Map<Seq<char>, i32>,
    sp: int,
    count: int,
    brk: Seq<char>,
) -> Option<(Seq<Seq<char>>, int)>
    decreases es,
{
    if es.len() == 0 {
        Some((Seq::empty(), count))
    } else {
        match compile_block_spec(es.drop_last(), env, sp, count, brk) {
            Some((codes, k)) => match compile_spec(es.last(), env, sp, k, brk) {
                Some((c, k2)) => Some((codes.push(c), k2)),
                None => None,
            },
            None => None,
        }
    }
}


proof fn lemma_block_prefix(
    es: Seq<Expr>,
    j: int,
    env: Map<Seq<char>, i32>,
    sp: int,
    count: int,
    brk: Seq<char>,
)
    requires
        0 <= j <= es.len(),
        compile_block_spec(es, env, sp, count, brk) is Some,
    ensures
        compile_block_spec(es.take(j), env, sp, count, brk) is Some,
    decreases es.len(),
{
    if j == es.len() {
        assert(es.take(j) =~= es);
    } else {
        lemma_block_prefix(es.drop_last(), j, env, sp, count, brk);
        assert(es.drop_last().take(j) =~= es.take(j));
    }
}

/// The code of `e`, as `compile_spec` states it; the expressions on which
/// code generation panics are left out.
pub fn compile_expr(
    e: &Expr,
    env: &im::HashMap<String, i32>,
    sp: usize,
    count: &mut i32,
    brk: &str,
) -> (r: String)
    requires
        compile_spec(*e, i32_entries(*env), sp as int, *old(count) as int, brk@) is Some,
    ensures
        compile_spec(*e, i32_entries(*env), sp as int, *old(count) as int, brk@) == Some(
            (r@, *final(count) as int),
        ),
    decreases e,
{
    match e {
        Expr::Num(n) => {
            let mut out = String::from_str("mov rax, ");
            push_int(&mut out, (*n << 1) as i64);
            out
        },
        Expr::Add1(a) => {
            let mut out = compile_expr(a, env, sp, count, brk);
            out.append("\nadd rax, 2");
            out
        },
        Expr::Sub1(a) => {
            let mut out = compile_expr(a, env, sp, count, brk);
            out.append("\nsub rax, 2");
            out
        },
        Expr::Neg(a) => {
            let mut out = compile_expr(a, env, sp, count, brk);
            out.append("\nneg rax");
            out
        },
        Expr::Var(x) => {
            let x_pos = i32_env_get(env, x).unwrap();
            let mut out = String::from_str("mov rax, [rbp - 8*");
            push_int(&mut out, x_pos as i64);
            out.append("]");
            out
        },
        Expr::Let(x, a, b) => {
            let c1 = compile_expr(a, env, sp, count, brk);
            let x_pos = sp;
            let mut x_save = String::from_str("mov [rbp - 8*");
            push_nat(&mut x_save, x_pos as u64);
            x_save.append("], rax");
            let new_env = i32_env_update(env, x.clone(), x_pos as i32);
            let c2 = compile_expr(b, &new_env, sp + 1, count, brk);
            let mut out = c1;
            out.append("\n");
            out.append(x_save.as_str());
            out.append("\n");
            out.append(c2.as_str());
            out
        },
        Expr::Plus(a, b) => {
            let c1 = compile_expr(a, env, sp, count, brk);
            let c2 = compile_expr(b, env, sp + 1, count, brk);
            let t1 = test_number(99);
            let t2 = test_number(33);
            let mut out = c1;
            out.append("\n                 ");
            out.append(t1.as_str());
            out.append("\n                 mov [rbp - 8*");
            push_nat(&mut out, sp as u64);
            out.append("], rax\n                 ");
            out.append(c2.as_str());
            out.append("\n                 ");
            out.append(t2.as_str());
            out.append("\n                 add rax, [rbp - 8*");
            push_nat(&mut out, sp as u64);
            out.append("]\n                ");
            out
        },
        Expr::Mult(a, b) => {
            let c1 = compile_expr(a, env, sp, count, brk);
            let c2 = compile_expr(b, env, sp + 1, count, brk);
            let t1 = test_number(99);
            let t2 = test_number(33);
            let off = 8 * sp;
            let mut out = c1;
            out.append("\n                 ");
            out.append(t1.as_str());
            out.append("\n                 mov [rbp - ");
            push_nat(&mut out, off as u64);
            out.append("], rax\n                 ");
            out.append(c2.as_str());
            out.append("\n                 ");
            out.append(t2.as_str());
            out.append("\n                 sar rax, 1\n                 imul rax, [rbp - ");
            push_nat(&mut out, off as u64);
            out.append("]\n                ");
            out
        },
        Expr::If(a, b, c) => {
            *count = *count + 1;
            let c1 = compile_expr(a, env, sp, count, brk);
            let c2 = compile_expr(b, env, sp, count, brk);
            let c3 = compile_expr(c, env, sp, count, brk);
            let mut out = c1;
            out.append("\n                      cmp rax, ");
            push_nat(&mut out, FALSE as u64);
            out.append("\n                      je label_else_");
            push_int(&mut out, *count as i64);
            out.append("\n                      ");
            out.append(c2.as_str());
            out.append("\n                      jmp label_exit_");
            push_int(&mut out, *count as i64);
            out.append("\n                    label_else_");
            push_int(&mut out, *count as i64);
            out.append(":\n                      ");
            out.append(c3.as_str());
            out.append("\n                    label_exit_");
            push_int(&mut out, *count as i64);
            out.append(":");
            out
        },
        Expr::Input => String::from_str("mov rax, [rbp - 8]"),
        Expr::True => {
            let mut out = String::from_str("mov rax, ");
            push_nat(&mut out, TRUE as u64);
            out
        },
        Expr::False => {
            let mut out = String::from_str("mov rax, ");
            push_nat(&mut out, FALSE as u64);
            out
        },
        Expr::Eq(a, b) => {
            let c1 = compile_expr(a, env, sp, count, brk);
            let c2 = compile_expr(b, env, sp + 1, count, brk);
            *count = *count + 1;
            let exit = label(String::from_str("eq_exit"), &*count);
            let mut out = c1;
            out.append("\n                 mov [rbp - 8*");
            push_nat(&mut out, sp as u64);
            out.append("], rax\n                 ");
            out.append(c2.as_str());
            out.append("\n                 cmp rax, [rbp - 8*");
            push_nat(&mut out, sp as u64);
            out.append("]\n                 mov rax, ");
            push_nat(&mut out, FALSE as u64);
            out.append("\n                 jne ");
            out.append(exit.as_str());
            out.append("\n                 mov rax, ");
            push_nat(&mut out, TRUE as u64);
            out.append("\n               ");
            out.append(exit.as_str());
            out.append(":\n                ");
            out
        },
        Expr::Assign(x, a) => {
            let x_pos = i32_env_get(env, x).unwrap();
            let mut out = compile_expr(a, env, sp, count, brk);
            out.append("\n                     mov [rbp - 8*");
            push_int(&mut out, x_pos as i64);
            out.append("], rax");
            out
        },
        Expr::Block(es) => {
            let ghost count0 = *count;
            let ghost mut codes: Seq<Seq<char>> = Seq::empty();
            let mut out = String::new();
            let mut i: usize = 0;
            proof {
                assert(es@.take(0) =~= Seq::<Expr>::empty());
            }
            while i < es.len()
                invariant
                    *e == Expr::Block(*es),
                    0 <= i <= es@.len(),
                    compile_block_spec(es@, i32_entries(*env), sp as int, count0 as int, brk@) is Some,
                    compile_block_spec(
                        es@.take(i as int),
                        i32_entries(*env),
                        sp as int,
                        count0 as int,
                        brk@,
                    ) == Some((codes, *count as int)),
                    out@ == join_lines(codes),
                    codes.len() == i,
                decreases es@.len() - i,
            {
                proof {
                    lemma_block_prefix(
                        es@,
                        i + 1,
                        i32_entries(*env),
                        sp as int,
                        count0 as int,
                        brk@,
                    );
                    assert(es@.take(i + 1).drop_last() =~= es@.take(i as int));
                    assert(decreases_to!(*es => es[i as int]));
                    assert(decreases_to!(*e => (*e)->Block_0));
                }
                let c = compile_expr(&es[i], env, sp, count, brk);
                if i > 0 {
                    out.append("\n");
                }
                out.append(c.as_str());
                proof {
                    let old_codes = codes;
                    codes = codes.push(c@);
                    assert(codes.drop_last() =~= old_codes);
                    if i == 0 {
                        assert(out@ =~= c@);
                    }
                }
                i = i + 1;
            }
            proof {
                assert(es@.take(es@.len() as int) =~= es@);
            }
            out
        },
        Expr::Loop(a) => {
            *count = *count + 1;
            let loop_start = label(String::from_str("loop_start"), &*count);
            let loop_exit = label(String::from_str("loop_exit"), &*count);
            let c = compile_expr(a, env, sp, count, loop_exit.as_str());
            let mut out = loop_start.clone();
            out.append(":\n                        ");
            out.append(c.as_str());
            out.append("\n                        jmp ");
            out.append(loop_start.as_str());
            out.append("\n                     ");
            out.append(loop_exit.as_str());
            out.append(":");
            out
        },
        Expr::Break(a) => {
            let mut out = compile_expr(a, env, sp, count, brk);
            out.append("\n                     jmp ");
            out.append(brk);
            out
        },
        Expr::Print(a) => {
            let mut out = compile_expr(a, env, sp, count, brk);
            out.append(
                "\n                     mov rdi, rax\n                     call snek_print\n                    ",
            );
            out
        },
        Expr::Call1(f, a) => {
            let mut out = compile_expr(a, env, sp, count, brk);
            out.append("\n                 push rax\n                 call fun_start_");
            out.append(f.as_str());
            out.append("\n                 add rsp, 8*1\n                ");
            out
        },
        Expr::Call2(f, a, b) => {
            let c1 = compile_expr(a, env, sp, count, brk);
            let c2 = compile_expr(b, env, sp + 1, count, brk);
            let mut out = c1;
            out.append("\n                 mov [rbp - 8*");
            push_nat(&mut out, sp as u64);
            out.append("], rax\n                 ");
            out.append(c2.as_str());
            out.append("\n                 push rax\n                 mov rcx, [rbp - 8*");
            push_nat(&mut out, sp as u64);
            out.append("]\n                 push rcx\n                 call fun_start_");
            out.append(f.as_str());
            out.append("\n                 add rsp, 8*2\n                ");
            out
        },
        Expr::Vec(a, b) => {
            let c1 = compile_expr(a, env, sp, count, brk);
            let c2 = compile_expr(b, env, sp + 1, count, brk);
            let mut out = c1;
            out.append("\n                 mov [rbp - 8*");
            push_nat(&mut out, sp as u64);
            out.append("], rax\n                 ");
            out.append(c2.as_str());
            out.append("\n                 mov rcx, [rbp - 8*");
            push_nat(&mut out, sp as u64);
            out.append(
                "]\n                 mov [r11], rcx\n                 mov [r11 + 8], rax\n                 mov rax, r11\n                 add rax, 1\n                 add r11, 16",
            );
            out
        },
        Expr::Le(_, _) => {
            proof {
                assert(false);
            }
            String::new()
        },
        Expr::Get(_, _) => {
            proof {
                assert(false);
            }
            String::new()
        },
    }
}


/// The code that restores the caller's frame and returns.
pub open spec fn exit_text() -> Seq<char> {
    "mov rsp, rbp\n             pop rbp\n             ret"@
}

/// Code that restores the caller's frame and returns.
pub fn compile_exit() -> (r: String)
    ensures
        r@ == exit_text(),
{
    String::from_str("mov rsp, rbp\n             pop rbp\n             ret")
}

/// Whether code generation for the expressions of a block succeeds, and the
/// counter after them.
fn check_block(
    es: &Vec<Expr>,
    env: &im::HashMap<String, i32>,
    sp: usize,
    count: i32,
    Ghost(brk): Ghost<Seq<char>>,
) -> (r: Option<i32>)
    ensures
        match compile_block_spec(es@, i32_entries(*env), sp as int, count as int, brk) {
            Some((_, k)) => r is Some && r->0 == k,
            None => r is None,
        },
    decreases es,
{
    let ghost envm = i32_entries(*env);
    let mut k = count;
    let mut i: usize = 0;
    proof {
        assert(es@.take(0) =~= Seq::<Expr>::empty());
    }
    while i < es.len()
        invariant
            envm == i32_entries(*env),
            0 <= i <= es@.len(),
            compile_block_spec(es@.take(i as int), envm, sp as int, count as int, brk) matches Some(
                (_, k0),
            ) && k0 == k,
        decreases es@.len() - i,
    {
        proof {
            assert(es@.take(i + 1).drop_last() =~= es@.take(i as int));
            assert(decreases_to!(*es => es[i as int]));
        }
        match check_expr(&es[i], env, sp, k, Ghost(brk)) {
            Some(k2) => {
                k = k2;
            },
            None => {
                proof {
                    if compile_block_spec(es@, envm, sp as int, count as int, brk) is Some {
                        lemma_block_prefix(es@, i + 1, envm, sp as int, count as int, brk);
                    }
                }
                return None;
            },
        }
        i = i + 1;
    }
    proof {
        assert(es@.take(es@.len() as int) =~= es@);
    }
    Some(k)
}

/// Whether the slot count of `e` is defined: no `<=`, no `vec-get` and no
/// empty block.
pub open spec fn vars_defined(e: Expr) -> bool
    decreases e,
{
    match e {
        Expr::Num(_) | Expr::Var(_) | Expr::Input | Expr::True | Expr::False => true,
        Expr::Add1(a) | Expr::Sub1(a) | Expr::Neg(a) | Expr::Assign(_, a) | Expr::Loop(a)
        | Expr::Break(a) | Expr::Print(a) | Expr::Call1(_, a) => vars_defined(*a),
        Expr::Call2(_, a, b) | Expr::Let(_, a, b) | Expr::Eq(a, b) | Expr::Plus(a, b) | Expr::Mult(
            a,
            b,
        ) | Expr::Vec(a, b) => vars_defined(*a) && vars_defined(*b),
        Expr::If(a, b, c) => vars_defined(*a) && vars_defined(*b) && vars_defined(*c),
        Expr::Block(es) => es@.len() > 0 && all_vars_defined(es@),
        Expr::Le(_, _) | Expr::Get(_, _) => false,
    }
}

/// Whether the slot count of every expression of `es` is defined.
pub open spec fn all_vars_defined(es: Seq<Expr>) -> bool
    decreases es,
{
    es.len() == 0 || (all_vars_defined(es.drop_last()) && vars_defined(es.last()))
}

/// The number of stack slots that the code of `e` uses for intermediate
/// values and variables: a second operand takes one slot more than the
/// first, a `let` body one more than its binding.
pub open spec fn vars(e: Expr) -> nat
    decreases e,
{
    match e {
        Expr::Num(_) | Expr::Var(_) | Expr::Input | Expr::True | Expr::False => 0,
        Expr::Add1(a) | Expr::Sub1(a) | Expr::Neg(a) | Expr::Assign(_, a) | Expr::Loop(a)
        | Expr::Break(a) | Expr::Print(a) | Expr::Call1(_, a) => vars(*a),
        Expr::Call2(_, a, b) | Expr::Let(_, a, b) | Expr::Eq(a, b) | Expr::Plus(a, b) | Expr::Mult(
            a,
            b,
        ) | Expr::Vec(a, b) => max_nat(vars(*a), 1 + vars(*b)),
        Expr::If(a, b, c) => max_nat(vars(*a), max_nat(vars(*b), vars(*c))),
        Expr::Block(es) => vars_block(es@),
        Expr::Le(_, _) | Expr::Get(_, _) => 0,
    }
}

/// The larger of two naturals.
pub open spec fn max_nat(a: nat, b: nat) -> nat {
    if a >= b {
        a
    } else {
        b
    }
}

/// The largest slot count of the expressions of `es` (zero for none).
pub open spec fn vars_block(es: Seq<Expr>) -> nat
    decreases es,
{
    if es.len() == 0 {
        0
    } else {
        max_nat(vars_block(es.drop_last()), vars(es.last()))
    }
}

proof fn lemma_vars_block(es: Seq<Expr>)
    ensures
        all_vars_defined(es) <==> forall|j: int| 0 <= j < es.len() ==> vars_defined(#[trigger] es[j]),
        forall|j: int| 0 <= j < es.len() ==> vars(#[trigger] es[j]) <= vars_block(es),
    decreases es.len(),
{
    if es.len() > 0 {
        lemma_vars_block(es.drop_last());
        assert forall|j: int| 0 <= j < es.len() - 1 implies es.drop_last()[j] == es[j] by {}
    }
}

/// The number of stack slots that the code of `e` uses.
pub fn expr_vars(e: &Expr) -> (r: usize)
    requires
        vars_defined(*e),
        vars(*e) <= usize::MAX,
    ensures
        r == vars(*e),
    decreases e,
{
    match e {
        Expr::Num(_) | Expr::Var(_) | Expr::Input | Expr::True | Expr::False => 0,
        Expr::Add1(a) | Expr::Sub1(a) | Expr::Neg(a) | Expr::Assign(_, a) | Expr::Loop(a)
        | Expr::Break(a) | Expr::Print(a) | Expr::Call1(_, a) => expr_vars(a),
        Expr::Call2(_, a, b) | Expr::Let(_, a, b) | Expr::Eq(a, b) | Expr::Plus(a, b) | Expr::Mult(
            a,
            b,
        ) | Expr::Vec(a, b) => {
            let v1 = expr_vars(a);
            let v2 = 1 + expr_vars(b);
            if v1 >= v2 {
                v1
            } else {
                v2
            }
        },
        Expr::If(a, b, c) => {
            let v1 = expr_vars(a);
            let v2 = expr_vars(b);
            let v3 = expr_vars(c);
            let v23 = if v2 >= v3 {
                v2
            } else {
                v3
            };
            if v1 >= v23 {
                v1
            } else {
                v23
            }
        },
        Expr::Block(es) => {
            proof {
                lemma_vars_block(es@);
            }
            let mut m: usize = 0;
            let mut i: usize = 0;
            while i < es.len()
                invariant
                    *e == Expr::Block(*es),
                    i <= es@.len(),
                    forall|j: int| 0 <= j < es@.len() ==> vars_defined(#[trigger] es@[j]),
                    forall|j: int| 0 <= j < es@.len() ==> vars(#[trigger] es@[j]) <= vars_block(es@),
                    vars_block(es@) <= usize::MAX,
                    m == vars_block(es@.take(i as int)),
                decreases es@.len() - i,
            {
                proof {
                    assert(decreases_to!(*es => es[i as int]));
                    assert(decreases_to!(*e => (*e)->Block_0));
                    assert(es@.take(i + 1).drop_last() =~= es@.take(i as int));
                }
                let v = expr_vars(&es[i]);
                if v > m {
                    m = v;
                }
                i = i + 1;
            }
            proof {
                assert(es@.take(es@.len() as int) =~= es@);
            }
            m
        },
        Expr::Le(_, _) | Expr::Get(_, _) => {
            proof {
                assert(false);
            }
            0
        },
    }
}

/// The prologue of a frame of `n` slots.
pub open spec fn entry_text(n: int) -> Seq<char> {
    "push rbp\n             mov rbp, rsp\n             sub rsp, 8*"@ + nat_text(n as nat)
}

/// The prologue of a frame for `e` above `sp` reserved slots.
pub fn compile_entry(e: &Expr, sp: usize) -> (r: String)
    requires
        vars_defined(*e),
        vars(*e) + sp <= usize::MAX,
    ensures
        r@ == entry_text(vars(*e) + sp),
{
    let vars = expr_vars(e) + sp;
    let mut out = String::from_str("push rbp\n             mov rbp, rsp\n             sub rsp, 8*");
    push_nat(&mut out, vars as u64);
    out
}

/// The frame slots of the parameters of a function: the first argument sits
/// above the return address (slot -2), the second above it (slot -3).
pub open spec fn init_env_spec(args: Seq<String>) -> Map<Seq<char>, i32> {
    if args.len() == 0 {
        Map::empty()
    } else if args.len() == 1 {
        Map::empty().insert(args[0]@, -2i32)
    } else {
        Map::empty().insert(args[0]@, -2i32).insert(args[1]@, -3i32)
    }
}

/// The frame slots of the parameters of a function of at most two
/// parameters.
pub fn init_env(args: &[String]) -> (r: im::HashMap<String, i32>)
    requires
        args@.len() <= 2,
    ensures
        i32_entries(r) == init_env_spec(args@),
{
    let m = i32_env_new();
    if args.len() == 0 {
        m
    } else if args.len() == 1 {
        i32_env_update(&m, args[0].clone(), -2)
    } else {
        let m1 = i32_env_update(&m, args[0].clone(), -2);
        i32_env_update(&m1, args[1].clone(), -3)
    }
}

/// The code of a function body with parameters `args` above `sp` reserved
/// slots, with the counter after it; `None` where code generation panics.
pub open spec fn def_body_spec(args: Seq<String>, sp: int, body: Expr, count: int) -> Option<
    (Seq<char>, int),
> {
    if args.len() > 2 || !vars_defined(body) || vars(body) + sp > usize::MAX {
        None
    } else {
        match compile_spec(body, init_env_spec(args), sp, count, "time_to_exit"@) {
            Some((c, k)) => Some(
                (entry_text(vars(body) + sp) + "\n         "@ + c + "\n         "@ + exit_text(), k),
            ),
            None => None,
        }
    }
}

/// The prologue, body and epilogue of a function.
pub fn compile_def_body(args: &[String], sp: usize, body: &Expr, count: &mut i32) -> (r: String)
    requires
        def_body_spec(args@, sp as int, *body, *old(count) as int) is Some,
    ensures
        def_body_spec(args@, sp as int, *body, *old(count) as int) == Some(
            (r@, *final(count) as int),
        ),
{
    let fun_entry = compile_entry(body, sp);
    let env = init_env(args);
    let body_code = compile_expr(body, &env, sp, count, "time_to_exit");
    let fun_exit = compile_exit();
    let mut out = fun_entry;
    out.append("\n         ");
    out.append(body_code.as_str());
    out.append("\n         ");
    out.append(fun_exit.as_str());
    out
}

/// The name, parameters and body of a definition.
pub open spec fn def_parts(d: Defn) -> (String, Seq<String>, Expr) {
    match d {
        Defn::Fun1(f, x1, b) => (f, seq![x1], *b),
        Defn::Fun2(f, x1, x2, b) => (f, seq![x1, x2], *b),
    }
}

/// The code of a definition, with the counter after it.
pub open spec fn def_spec(d: Defn, count: int) -> Option<(Seq<char>, int)> {
    let (f, args, body) = def_parts(d);
    match def_body_spec(args, 1, body, count) {
        Some((c, k)) => Some(("fun_start_"@ + f@ + ":\n            "@ + c, k)),
        None => None,
    }
}

/// The code of a function definition, under the label `fun_start_f`.
pub fn compile_def(def: &Defn, count: &mut i32) -> (r: String)
    requires
        def_spec(*def, *old(count) as int) is Some,
    ensures
        def_spec(*def, *old(count) as int) == Some((r@, *final(count) as int)),
{
    let (f, args, body) = match def {
        Defn::Fun1(f, x1, e) => (f, vec![x1.clone()], e),
        Defn::Fun2(f, x1, x2, e) => (f, vec![x1.clone(), x2.clone()], e),
    };
    proof {
        assert(args@ =~= def_parts(*def).1);
    }
    let body = compile_def_body(args.as_slice(), 1, body, count);
    let mut out = String::from_str("fun_start_");
    out.append(f.as_str());
    out.append(":\n            ");
    out.append(body.as_str());
    out
}

/// The codes of the definitions `ds`, compiled one after the other, with the
/// counter after the last.
pub open spec fn defs_spec(ds: Seq<Defn>, count: int) -> Option<(Seq<Seq<char>>, int)>
    decreases ds.len(),
{
    if ds.len() == 0 {
        Some((Seq::empty(), count))
    } else {
        match defs_spec(ds.drop_last(), count) {
            Some((codes, k)) => match def_spec(ds.last(), k) {
                Some((c, k2)) => Some((codes.push(c), k2)),
                None => None,
            },
            None => None,
        }
    }
}

/// The assembly text of a program; `None` where code generation panics.
pub open spec fn prog_spec(p: Prog) -> Option<Seq<char>> {
    match defs_spec(p.defs@, 0) {
        Some((codes, k)) => if !vars_defined(*p.expr) || vars(*p.expr) + 1 > usize::MAX {
            None
        } else {
            match compile_spec(*p.expr, Map::empty(), 2, k, "time_to_exit"@) {
                Some((c, _)) => Some(
                    "section .text\nglobal our_code_starts_here\nextern snek_error\nextern snek_print\nlabel_error:\n  push rsp\n  call snek_error\n"@
                        + join_lines(codes) + "\nour_code_starts_here:\n "@ + entry_text(
                        (vars(*p.expr) + 1) as int,
                    )
                        + "\n mov [rbp - 8], rdi\n mov r11, rsi\n add r11, 7\n mov rax, 0xfffffffffffffff8\n and r11, rax\n "@
                        + c + "\n "@ + exit_text() + "\ntime_to_exit:\n  ret\n"@,
                ),
                None => None,
            }
        },
        None => None,
    }
}

proof fn lemma_defs_prefix(ds: Seq<Defn>, j: int, count: int)
    requires
        0 <= j <= ds.len(),
        defs_spec(ds, count) is Some,
    ensures
        defs_spec(ds.take(j), count) is Some,
    decreases ds.len(),
{
    if j == ds.len() {
        assert(ds.take(j) =~= ds);
    } else {
        lemma_defs_prefix(ds.drop_last(), j, count);
        assert(ds.drop_last().take(j) =~= ds.take(j));
    }
}

/// The codes of the definitions, joined by newlines.
fn compile_defs(defs: &Vec<Defn>, count: &mut i32) -> (r: String)
    requires
        defs_spec(defs@, *old(count) as int) is Some,
    ensures
        defs_spec(defs@, *old(count) as int) matches Some((codes, k)) && r@ == join_lines(codes)
            && k == *final(count),
{
    let ghost count0 = *count;
    let ghost mut codes: Seq<Seq<char>> = Seq::empty();
    let mut defs_code = String::new();
    let mut i: usize = 0;
    proof {
        assert(defs@.take(0) =~= Seq::<Defn>::empty());
    }
    while i < defs.len()
        invariant
            0 <= i <= defs@.len(),
            defs_spec(defs@, count0 as int) is Some,
            defs_spec(defs@.take(i as int), count0 as int) == Some((codes, *count as int)),
            defs_code@ == join_lines(codes),
            codes.len() == i,
        decreases defs@.len() - i,
    {
        proof {
            lemma_defs_prefix(defs@, i + 1, count0 as int);
            assert(defs@.take(i + 1).drop_last() =~= defs@.take(i as int));
        }
        let c = compile_def(&defs[i], count);
        if i > 0 {
            defs_code.append("\n");
        }
        defs_code.append(c.as_str());
        proof {
            let old_codes = codes;
            codes = codes.push(c@);
            assert(codes.drop_last() =~= old_codes);
            if i == 0 {
                assert(defs_code@ =~= c@);
            }
        }
        i = i + 1;
    }
    proof {
        assert(defs@.take(defs@.len() as int) =~= defs@);
    }
    defs_code
}

/// The assembly text of a program: its functions, then the entry point
/// `our_code_starts_here`, which sets up the frame, saves the input and
/// aligns the heap pointer before the main expression.
pub fn compile_prog(prog: &Prog) -> (r: String)
    requires
        prog_spec(*prog) is Some,
    ensures
        prog_spec(*prog) == Some(r@),
{
    let mut count: i32 = 0;
    let defs_code = compile_defs(&prog.defs, &mut count);
    let e_entry = compile_entry(&prog.expr, 1);
    let env = i32_env_new();
    proof {
        assert(i32_entries(env) =~= Map::empty());
    }
    let e_code = compile_expr(&prog.expr, &env, 2, &mut count, "time_to_exit");
    let e_exit = compile_exit();
    let mut out = String::from_str(
        "section .text\nglobal our_code_starts_here\nextern snek_error\nextern snek_print\nlabel_error:\n  push rsp\n  call snek_error\n",
    );
    out.append(defs_code.as_str());
    out.append("\nour_code_starts_here:\n ");
    out.append(e_entry.as_str());
    out.append(
        "\n mov [rbp - 8], rdi\n mov r11, rsi\n add r11, 7\n mov rax, 0xfffffffffffffff8\n and r11, rax\n ",
    );
    out.append(e_code.as_str());
    out.append("\n ");
    out.append(e_exit.as_str());
    out.append("\ntime_to_exit:\n  ret\n");
    out
}


/// Whether code generation for `e` succeeds, and the counter after it.
fn check_expr(
    e: &Expr,
    env: &im::HashMap<String, i32>,
    sp: usize,
    count: i32,
    Ghost(brk): Ghost<Seq<char>>,
) -> (r: Option<i32>)
    ensures
        match compile_spec(*e, i32_entries(*env), sp as int, count as int, brk) {
            Some((_, k)) => r is Some && r->0 == k,
            None => r is None,
        },
    decreases e,
{
    match e {
        Expr::Num(_) | Expr::Input | Expr::True | Expr::False => Some(count),
        Expr::Add1(a) | Expr::Sub1(a) | Expr::Neg(a) | Expr::Print(a) | Expr::Call1(_, a) => {
            check_expr(a, env, sp, count, Ghost(brk))
        },
        Expr::Break(a) => check_expr(a, env, sp, count, Ghost(brk)),
        Expr::Var(x) => {
            if i32_env_get(env, x).is_some() {
                Some(count)
            } else {
                None
            }
        },
        Expr::Let(x, a, b) => {
            if sp == usize::MAX {
                return None;
            }
            let k1 = check_expr(a, env, sp, count, Ghost(brk))?;
            let new_env = i32_env_update(env, x.clone(), sp as i32);
            check_expr(b, &new_env, sp + 1, k1, Ghost(brk))
        },
        Expr::Plus(a, b) | Expr::Call2(_, a, b) | Expr::Vec(a, b) => {
            if sp == usize::MAX {
                return None;
            }
            let k1 = check_expr(a, env, sp, count, Ghost(brk))?;
            check_expr(b, env, sp + 1, k1, Ghost(brk))
        },
        Expr::Mult(a, b) => {
            if sp == usize::MAX || sp > usize::MAX / 8 {
                return None;
            }
            let k1 = check_expr(a, env, sp, count, Ghost(brk))?;
            check_expr(b, env, sp + 1, k1, Ghost(brk))
        },
        Expr::Eq(a, b) => {
            if sp == usize::MAX {
                return None;
            }
            let k1 = check_expr(a, env, sp, count, Ghost(brk))?;
            let k2 = check_expr(b, env, sp + 1, k1, Ghost(brk))?;
            if k2 == i32::MAX {
                None
            } else {
                Some(k2 + 1)
            }
        },
        Expr::If(a, b, c) => {
            if count == i32::MAX {
                return None;
            }
            let k1 = check_expr(a, env, sp, count + 1, Ghost(brk))?;
            let k2 = check_expr(b, env, sp, k1, Ghost(brk))?;
            check_expr(c, env, sp, k2, Ghost(brk))
        },
        Expr::Assign(x, a) => {
            if i32_env_get(env, x).is_some() {
                check_expr(a, env, sp, count, Ghost(brk))
            } else {
                None
            }
        },
        Expr::Block(es) => {
            proof {
                assert(decreases_to!(*e => (*e)->Block_0));
            }
            check_block(es, env, sp, count, Ghost(brk))
        },
        Expr::Loop(a) => {
            if count == i32::MAX {
                return None;
            }
            check_expr(a, env, sp, count + 1, Ghost(label_text("loop_exit"@, count + 1)))
        },
        Expr::Le(_, _) | Expr::Get(_, _) => None,
    }
}

/// Whether the slot count of `e` is defined and fits in a `usize`, and what
/// it is.
fn check_vars(e: &Expr) -> (r: Option<usize>)
    ensures
        r is Some <==> vars_defined(*e) && vars(*e) <= usize::MAX,
        r matches Some(v) ==> v == vars(*e),
    decreases e,
{
    match e {
        Expr::Num(_) | Expr::Var(_) | Expr::Input | Expr::True | Expr::False => Some(0),
        Expr::Add1(a) | Expr::Sub1(a) | Expr::Neg(a) | Expr::Assign(_, a) | Expr::Loop(a)
        | Expr::Break(a) | Expr::Print(a) | Expr::Call1(_, a) => check_vars(a),
        Expr::Call2(_, a, b) | Expr::Let(_, a, b) | Expr::Eq(a, b) | Expr::Plus(a, b) | Expr::Mult(
            a,
            b,
        ) | Expr::Vec(a, b) => {
            let v1 = check_vars(a)?;
            let v2 = check_vars(b)?;
            if v2 == usize::MAX {
                return None;
            }
            if v1 >= v2 + 1 {
                Some(v1)
            } else {
                Some(v2 + 1)
            }
        },
        Expr::If(a, b, c) => {
            let v1 = check_vars(a)?;
            let v2 = check_vars(b)?;
            let v3 = check_vars(c)?;
            let v23 = if v2 >= v3 {
                v2
            } else {
                v3
            };
            if v1 >= v23 {
                Some(v1)
            } else {
                Some(v23)
            }
        },
        Expr::Block(es) => {
            if es.len() == 0 {
                return None;
            }
            proof {
                lemma_vars_block(es@);
            }
            let mut m: usize = 0;
            let mut i: usize = 0;
            while i < es.len()
                invariant
                    *e == Expr::Block(*es),
                    i <= es@.len(),
                    forall|j: int| 0 <= j < i ==> vars_defined(#[trigger] es@[j]),
                    m == vars_block(es@.take(i as int)),
                    all_vars_defined(es@) <==> forall|j: int|
                        0 <= j < es@.len() ==> vars_defined(#[trigger] es@[j]),
                    forall|j: int| 0 <= j < es@.len() ==> vars(#[trigger] es@[j]) <= vars_block(es@),
                decreases es@.len() - i,
            {
                proof {
                    assert(decreases_to!(*es => es[i as int]));
                    assert(decreases_to!(*e => (*e)->Block_0));
                    assert(es@.take(i + 1).drop_last() =~= es@.take(i as int));
                }
                let v = check_vars(&es[i])?;
                if v > m {
                    m = v;
                }
                i = i + 1;
            }
            proof {
                assert(es@.take(es@.len() as int) =~= es@);
            }
            Some(m)
        },
        Expr::Le(_, _) | Expr::Get(_, _) => None,
    }
}

/// Whether code generation for a definition succeeds, and the counter after
/// it.
fn check_def(def: &Defn, count: i32) -> (r: Option<i32>)
    ensures
        match def_spec(*def, count as int) {
            Some((_, k)) => r is Some && r->0 == k,
            None => r is None,
        },
{
    let (args, body) = match def {
        Defn::Fun1(_, x1, e) => (vec![x1.clone()], e),
        Defn::Fun2(_, x1, x2, e) => (vec![x1.clone(), x2.clone()], e),
    };
    proof {
        assert(args@ =~= def_parts(*def).1);
    }
    let v = check_vars(body)?;
    if v == usize::MAX {
        return None;
    }
    let env = init_env(args.as_slice());
    check_expr(body, &env, 1, count, Ghost("time_to_exit"@))
}

/// The assembly text of a program, or `None` for the programs on which
/// `compile_prog` panics.
pub fn try_compile_prog(prog: &Prog) -> (r: Option<String>)
    ensures
        r matches Some(t) ==> prog_spec(*prog) == Some(t@),
        r is None ==> prog_spec(*prog) is None,
{
    let mut k: i32 = 0;
    let mut i: usize = 0;
    proof {
        assert(prog.defs@.take(0) =~= Seq::<Defn>::empty());
    }
    while i < prog.defs.len()
        invariant
            0 <= i <= prog.defs@.len(),
            defs_spec(prog.defs@.take(i as int), 0) matches Some((_, k0)) && k0 == k,
        decreases prog.defs@.len() - i,
    {
        proof {
            assert(prog.defs@.take(i + 1).drop_last() =~= prog.defs@.take(i as int));
        }
        match check_def(&prog.defs[i], k) {
            Some(k2) => {
                k = k2;
            },
            None => {
                proof {
                    if defs_spec(prog.defs@, 0) is Some {
                        lemma_defs_prefix(prog.defs@, i + 1, 0);
                    }
                }
                return None;
            },
        }
        i = i + 1;
    }
    proof {
        assert(prog.defs@.take(prog.defs@.len() as int) =~= prog.defs@);
    }
    let v = check_vars(&prog.expr)?;
    if v == usize::MAX {
        return None;
    }
    let env = i32_env_new();
    proof {
        assert(i32_entries(env) =~= Map::empty());
    }
    if check_expr(&prog.expr, &env, 2, k, Ghost("time_to_exit"@)).is_none() {
        return None;
    }
    Some(compile_prog(prog))
}


/// Labels made with the same prefix and different numbers differ.
pub proof fn lemma_label_distinct(prefix: Seq<char>, c1: int, c2: int)
    requires
        c1 != c2,
    ensures
        label_text(prefix, c1) != label_text(prefix, c2),
{
    reveal_strlit("_");
    let n: int = (prefix.len() + 1) as int;
    if label_text(prefix, c1) == label_text(prefix, c2) {
        assert(label_text(prefix, c1).skip(n) =~= int_text(c1));
        assert(label_text(prefix, c2).skip(n) =~= int_text(c2));
        lemma_int_text_injective(c1, c2);
    }
}

/// How many label numbers the code of `e` draws: one for each conditional,
/// comparison and loop.
pub open spec fn label_draws(e: Expr) -> nat
    decreases e,
{
    match e {
        Expr::If(a, b, c) => 1 + label_draws(*a) + label_draws(*b) + label_draws(*c),
        Expr::Eq(a, b) => 1 + label_draws(*a) + label_draws(*b),
        Expr::Loop(a) => 1 + label_draws(*a),
        Expr::Add1(a) | Expr::Sub1(a) | Expr::Neg(a) | Expr::Assign(_, a) | Expr::Break(a)
        | Expr::Print(a) | Expr::Call1(_, a) | Expr::Get(a, _) => label_draws(*a),
        Expr::Let(_, a, b) | Expr::Plus(a, b) | Expr::Mult(a, b) | Expr::Le(a, b) | Expr::Call2(
            _,
            a,
            b,
        ) | Expr::Vec(a, b) => label_draws(*a) + label_draws(*b),
        Expr::Block(es) => block_draws(es@),
        Expr::Num(_) | Expr::Var(_) | Expr::Input | Expr::True | Expr::False => 0,
    }
}

/// How many label numbers the codes of the expressions of `es` draw.
pub open spec fn block_draws(es: Seq<Expr>) -> nat
    decreases es,
{
    if es.len() == 0 {
        0
    } else {
        block_draws(es.drop_last()) + label_draws(es.last())
    }
}

/// Compiling an expression advances the label counter by exactly the number
/// of conditionals, comparisons and loops in it.
pub proof fn lemma_counter_advance(
    e: Expr,
    env: Map<Seq<char>, i32>,
    sp: int,
    count: int,
    brk: Seq<char>,
)
    requires
        compile_spec(e, env, sp, count, brk) is Some,
    ensures
        compile_spec(e, env, sp, count, brk)->Some_0.1 == count + label_draws(e),
    decreases e,
{
    match e {
        Expr::Add1(a) | Expr::Sub1(a) | Expr::Neg(a) | Expr::Assign(_, a) | Expr::Break(a)
        | Expr::Print(a) | Expr::Call1(_, a) => {
            lemma_counter_advance(*a, env, sp, count, brk);
        },
        Expr::Let(x, a, b) => {
            lemma_counter_advance(*a, env, sp, count, brk);
            let k1 = compile_spec(*a, env, sp, count, brk)->Some_0.1;
            lemma_counter_advance(*b, env.insert(x@, sp as i32), sp + 1, k1, brk);
        },
        Expr::Plus(a, b) | Expr::Mult(a, b) | Expr::Call2(_, a, b) | Expr::Vec(a, b) | Expr::Eq(
            a,
            b,
        ) => {
            lemma_counter_advance(*a, env, sp, count, brk);
            let k1 = compile_spec(*a, env, sp, count, brk)->Some_0.1;
            lemma_counter_advance(*b, env, sp + 1, k1, brk);
        },
        Expr::If(a, b, c) => {
            lemma_counter_advance(*a, env, sp, count + 1, brk);
            let k1 = compile_spec(*a, env, sp, count + 1, brk)->Some_0.1;
            lemma_counter_advance(*b, env, sp, k1, brk);
            let k2 = compile_spec(*b, env, sp, k1, brk)->Some_0.1;
            lemma_counter_advance(*c, env, sp, k2, brk);
        },
        Expr::Loop(a) => {
            lemma_counter_advance(*a, env, sp, count + 1, label_text("loop_exit"@, count + 1));
        },
        Expr::Block(es) => {
            lemma_block_counter_advance(es@, env, sp, count, brk);
        },
        _ => {},
    }
}

/// Compiling a block advances the label counter by the draws of its
/// expressions.
pub proof fn lemma_block_counter_advance(
    es: Seq<Expr>,
    env: Map<Seq<char>, i32>,
    sp: int,
    count: int,
    brk: Seq<char>,
)
    requires
        compile_block_spec(es, env, sp, count, brk) is Some,
    ensures
        compile_block_spec(es, env, sp, count, brk)->Some_0.1 == count + block_draws(es),
    decreases es,
{
    if es.len() > 0 {
        lemma_block_counter_advance(es.drop_last(), env, sp, count, brk);
        let k = compile_block_spec(es.drop_last(), env, sp, count, brk)->Some_0.1;
        lemma_counter_advance(es.last(), env, sp, k, brk);
    }
}

/// The parameters of a definition are bound to the slots where a call
/// leaves its arguments: in `(defn (f x1 x2) body)` the body reads `x1` from
/// slot -2 (the first argument) and `x2` from slot -3 (the second; where the
/// two names are the same, the second binding wins); in `(defn (f x) body)`
/// it reads `x` from slot -2. The code is the label `fun_start_f`, the
/// prologue, the body and the epilogue.
pub proof fn lemma_parameter_slots(d: Defn, count: int)
    requires
        def_spec(d, count) is Some,
    ensures
        ({
            let (f, env, body) = match d {
                Defn::Fun1(f, x, b) => (f, map![x@ => -2i32], *b),
                Defn::Fun2(f, x1, x2, b) => (
                    f,
                    if x1@ == x2@ {
                        map![x1@ => -3i32]
                    } else {
                        map![x1@ => -2i32, x2@ => -3i32]
                    },
                    *b,
                ),
            };
            &&& compile_spec(body, env, 1, count, "time_to_exit"@) is Some
            &&& def_spec(d, count) == Some(
                (
                    "fun_start_"@ + f@ + ":\n            "@ + entry_text(vars(body) + 1int) + "\n         "@
                        + compile_spec(body, env, 1, count, "time_to_exit"@)->Some_0.0
                        + "\n         "@ + exit_text(),
                    compile_spec(body, env, 1, count, "time_to_exit"@)->Some_0.1,
                ),
            )
        }),
{
    match d {
        Defn::Fun1(f, x, b) => {
            assert(init_env_spec(seq![x]) =~= map![x@ => -2i32]);
        },
        Defn::Fun2(f, x1, x2, b) => {
            if x1@ == x2@ {
                assert(init_env_spec(seq![x1, x2]) =~= map![x1@ => -3i32]);
            } else {
                assert(init_env_spec(seq![x1, x2]) =~= map![x1@ => -2i32, x2@ => -3i32]);
            }
        },
    }
}

} // verus!
