//! What the code of the stage with conditionals computes: the text that
//! `compile_expr` writes is the text of a code of the assembly model, and
//! running that code leaves the value of the expression in `rax`.
use vstd::prelude::*;
use crate::machine::{
    asm_run, asm_text, cat, frame_holds, keeps_below, lemma_frame_extend, lemma_frame_keep,
    lemma_frame_store, lemma_if_text, lemma_keeps_trans, lemma_let_text, lemma_line_text,
    lemma_run_cat, lemma_unary_text, op_text, wrap64, Asm, Op,
};
use crate::lines::spaces;
use crate::text::{int_text, nat_text};
use super::compiler::{compile_spec, program_text};
use super::expr::Expr;

verus! {

/// The value of `e` with the variables bound by `venv`: `true` is 1 and
/// `false` is 0, arithmetic wraps around in 64 bits, `let` binds its
/// variable to the value of its first operand for the body, `+` adds, and a
/// conditional has the value of its then branch unless its condition is
/// false (0), when it has the value of its else branch.
pub open spec fn value(e: Expr, venv: Map<Seq<char>, int>) -> int
    decreases e,
{
    match e {
        Expr::Num(n) => n as int,
        Expr::Add1(a) => wrap64(value(*a, venv) + 1),
        Expr::Sub1(a) => wrap64(value(*a, venv) - 1),
        Expr::Neg(a) => wrap64(-value(*a, venv)),
        Expr::Var(x) => venv[x@],
        Expr::Let(x, a, b) => value(*b, venv.insert(x@, value(*a, venv))),
        Expr::Plus(a, b) => wrap64(value(*a, venv) + value(*b, venv)),
        Expr::If(c, t, f) => if value(*c, venv) == 0 {
            value(*f, venv)
        } else {
            value(*t, venv)
        },
        Expr::True => 1,
        Expr::False => 0,
        Expr::Eq(a, b) => if value(*a, venv) == value(*b, venv) {
            1
        } else {
            0
        },
    }
}

/// How many conditionals `e` holds: each draws one label number.
pub open spec fn ifs(e: Expr) -> int
    decreases e,
{
    match e {
        Expr::Add1(a) | Expr::Sub1(a) | Expr::Neg(a) => ifs(*a),
        Expr::Let(_, a, b) | Expr::Plus(a, b) | Expr::Eq(a, b) => ifs(*a) + ifs(*b),
        Expr::If(a, b, c) => 1 + ifs(*a) + ifs(*b) + ifs(*c),
        _ => 0,
    }
}

/// The code of `e` in the assembly model, with variables at the slots of
/// `env`, the next free slot `sp` and label counter `count`.
pub open spec fn asm_of(e: Expr, env: Map<Seq<char>, usize>, sp: int, count: int) -> Asm
    decreases e,
{
    match e {
        Expr::Num(n) => Asm::Line(0, Op::MovImm(n)),
        Expr::Add1(a) => cat(asm_of(*a, env, sp, count), Asm::Line(0, Op::AddImm(1))),
        Expr::Sub1(a) => cat(asm_of(*a, env, sp, count), Asm::Line(0, Op::SubImm(1))),
        Expr::Neg(a) => cat(asm_of(*a, env, sp, count), Asm::Line(0, Op::Negate)),
        Expr::Var(x) => Asm::Line(0, Op::Load(env[x@])),
        Expr::Let(x, a, b) => cat(
            cat(asm_of(*a, env, sp, count), Asm::Line(0, Op::Store(sp as usize))),
            asm_of(*b, env.insert(x@, sp as usize), sp + 1, count + ifs(*a)),
        ),
        Expr::Plus(a, b) => cat(
            cat(
                cat(
                    cat(asm_of(*a, env, sp, count), Asm::Line(17, Op::Store(sp as usize))),
                    Asm::Indent(17, Box::new(asm_of(*b, env, sp + 1, count + ifs(*a)))),
                ),
                Asm::Line(17, Op::AddMem(sp as usize)),
            ),
            Asm::Line(16, Op::Blank),
        ),
        Expr::If(a, b, c) => {
            let k1 = count + 1 + ifs(*a);
            let k2 = k1 + ifs(*b);
            Asm::Branch(
                Box::new(asm_of(*a, env, sp, count + 1)),
                0,
                (k2 + ifs(*c)) as i32,
                Box::new(asm_of(*b, env, sp, k1)),
                Box::new(asm_of(*c, env, sp, k2)),
            )
        },
        Expr::True => Asm::Line(0, Op::MovImm(1)),
        Expr::False => Asm::Line(0, Op::MovImm(0)),
        Expr::Eq(_, _) => Asm::Line(0, Op::Blank),
    }
}

/// Compiling `e` advances the label counter by its conditionals.
proof fn lemma_counter(e: Expr, env: Map<Seq<char>, usize>, sp: int, count: int)
    requires
        compile_spec(e, env, sp, count) is Some,
    ensures
        compile_spec(e, env, sp, count)->Some_0.1 == count + ifs(e),
        ifs(e) >= 0,
        count <= i32::MAX ==> compile_spec(e, env, sp, count)->Some_0.1 <= i32::MAX,
    decreases e,
{
    match e {
        Expr::Add1(a) => lemma_counter(*a, env, sp, count),
        Expr::Sub1(a) => lemma_counter(*a, env, sp, count),
        Expr::Neg(a) => lemma_counter(*a, env, sp, count),
        Expr::Let(x, a, b) => {
            lemma_counter(*a, env, sp, count);
            lemma_counter(*b, env.insert(x@, sp as usize), sp + 1, count + ifs(*a));
        },
        Expr::Plus(a, b) => {
            lemma_counter(*a, env, sp, count);
            lemma_counter(*b, env, sp + 1, count + ifs(*a));
        },
        Expr::If(a, b, c) => {
            lemma_counter(*a, env, sp, count + 1);
            lemma_counter(*b, env, sp, count + 1 + ifs(*a));
            lemma_counter(*c, env, sp, count + 1 + ifs(*a) + ifs(*b));
        },
        _ => {},
    }
}




#[verifier::spinoff_prover]
#[verifier::rlimit(60)]
proof fn lemma_plus_text(x: Asm, y: Asm, sp: int)
    requires
        0 <= sp <= usize::MAX,
    ensures
        asm_text(
            cat(
                cat(
                    cat(cat(x, Asm::Line(17, Op::Store(sp as usize))), Asm::Indent(17, Box::new(y))),
                    Asm::Line(17, Op::AddMem(sp as usize)),
                ),
                Asm::Line(16, Op::Blank),
            ),
        ) == asm_text(x) + "\n                 mov [rsp - 8*"@ + nat_text(sp as nat)
            + "], rax\n                 "@ + asm_text(y) + "\n                 add rax, [rsp - 8*"@
            + nat_text(sp as nat) + "]\n                "@,
{
    reveal_strlit("\n");
    reveal_strlit("\n                 mov [rsp - 8*");
    reveal_strlit("], rax\n                 ");
    reveal_strlit("\n                 add rax, [rsp - 8*");
    reveal_strlit("]\n                ");
    reveal_strlit("mov [rsp - 8*");
    reveal_strlit("], rax");
    reveal_strlit("add rax, [rsp - 8*");
    reveal_strlit("]");
    reveal_strlit("                 ");
    reveal_strlit("                ");
    let n = nat_text(sp as nat);
    let s17 = "                 "@;
    let s16 = "                "@;
    assert(spaces(17) =~= s17);
    assert(spaces(16) =~= s16);
    let l1 = Asm::Line(17, Op::Store(sp as usize));
    let l2 = Asm::Line(17, Op::AddMem(sp as usize));
    let l3 = Asm::Line(16, Op::Blank);
    let i = Asm::Indent(17, Box::new(y));
    assert(asm_text(l1) =~= s17 + ("mov [rsp - 8*"@ + n + "], rax"@));
    assert(asm_text(l2) =~= s17 + ("add rax, [rsp - 8*"@ + n + "]"@));
    assert(asm_text(l3) =~= s16);
    assert(asm_text(i) == s17 + asm_text(y));
    let t1 = asm_text(cat(x, l1));
    let t2 = asm_text(cat(cat(x, l1), i));
    let t3 = asm_text(cat(cat(cat(x, l1), i), l2));
    assert(t1 == asm_text(x) + "\n"@ + asm_text(l1));
    assert(t2 == t1 + "\n"@ + asm_text(i));
    assert(t3 == t2 + "\n"@ + asm_text(l2));
    assert(asm_text(cat(cat(cat(cat(x, l1), i), l2), l3)) == t3 + "\n"@ + asm_text(l3));
    assert(t3 + "\n"@ + asm_text(l3) =~= asm_text(x) + "\n                 mov [rsp - 8*"@ + n
        + "], rax\n                 "@ + asm_text(y) + "\n                 add rax, [rsp - 8*"@ + n
        + "]\n                "@);
}


/// The text that `compile_expr` writes for `e` is the text of `asm_of(e)`.
#[verifier::spinoff_prover]
pub proof fn lemma_code_is_asm(e: Expr, env: Map<Seq<char>, usize>, sp: int, count: int)
    requires
        compile_spec(e, env, sp, count) is Some,
        0 <= sp,
        i32::MIN <= count,
    ensures
        compile_spec(e, env, sp, count)->Some_0.0 == asm_text(asm_of(e, env, sp, count)),
    decreases e, 1int,
{
    reveal_strlit("\n");
    match e {
        Expr::Num(n) => lemma_line_text(Op::MovImm(n)),
        Expr::Var(x) => lemma_line_text(Op::Load(env[x@])),
        Expr::True | Expr::False => lemma_bool_is_asm(e, env, sp, count),
        Expr::Add1(_) | Expr::Sub1(_) | Expr::Neg(_) => lemma_unary_is_asm(e, env, sp, count),
        Expr::Let(..) | Expr::Plus(..) => lemma_pair_is_asm(e, env, sp, count),
        Expr::If(..) => lemma_if_is_asm(e, env, sp, count),
        _ => {},
    }
}

#[verifier::spinoff_prover]
proof fn lemma_bool_is_asm(e: Expr, env: Map<Seq<char>, usize>, sp: int, count: int)
    requires
        compile_spec(e, env, sp, count) is Some,
        0 <= sp,
        i32::MIN <= count,
        e is True || e is False,
    ensures
        compile_spec(e, env, sp, count)->Some_0.0 == asm_text(asm_of(e, env, sp, count)),
    decreases e, 0int,
{
    reveal_strlit("\n");
    match e {
        Expr::True => {
            reveal_strlit("mov rax, ");
            reveal_strlit("mov rax, 1");
            reveal_strlit("1");
            lemma_line_text(Op::MovImm(1));
            assert(int_text(1) =~= "1"@);
            assert("mov rax, "@ + int_text(1) =~= "mov rax, 1"@);
        },
        Expr::False => {
            reveal_strlit("mov rax, ");
            reveal_strlit("mov rax, 0");
            reveal_strlit("0");
            lemma_line_text(Op::MovImm(0));
            assert(int_text(0) =~= "0"@);
            assert("mov rax, "@ + int_text(0) =~= "mov rax, 0"@);
        },
        _ => {},
    }
}

#[verifier::spinoff_prover]
proof fn lemma_unary_is_asm(e: Expr, env: Map<Seq<char>, usize>, sp: int, count: int)
    requires
        compile_spec(e, env, sp, count) is Some,
        0 <= sp,
        i32::MIN <= count,
        e is Add1 || e is Sub1 || e is Neg,
    ensures
        compile_spec(e, env, sp, count)->Some_0.0 == asm_text(asm_of(e, env, sp, count)),
    decreases e, 0int,
{
    reveal_strlit("\n");
    match e {
        Expr::Add1(a) => {
            lemma_code_is_asm(*a, env, sp, count);
            reveal_strlit("\nadd rax, 1");
            reveal_strlit("add rax, ");
            reveal_strlit("1");
            assert(int_text(1) =~= "1"@);
            assert("\nadd rax, 1"@ =~= "\n"@ + op_text(Op::AddImm(1)));
            lemma_unary_text(asm_of(*a, env, sp, count), Op::AddImm(1), "\nadd rax, 1"@);
        },
        Expr::Sub1(a) => {
            lemma_code_is_asm(*a, env, sp, count);
            reveal_strlit("\nsub rax, 1");
            reveal_strlit("sub rax, ");
            reveal_strlit("1");
            assert(int_text(1) =~= "1"@);
            assert("\nsub rax, 1"@ =~= "\n"@ + op_text(Op::SubImm(1)));
            lemma_unary_text(asm_of(*a, env, sp, count), Op::SubImm(1), "\nsub rax, 1"@);
        },
        Expr::Neg(a) => {
            lemma_code_is_asm(*a, env, sp, count);
            reveal_strlit("\nneg rax");
            reveal_strlit("neg rax");
            assert("\nneg rax"@ =~= "\n"@ + op_text(Op::Negate));
            lemma_unary_text(asm_of(*a, env, sp, count), Op::Negate, "\nneg rax"@);
        },
        _ => {},
    }
}

#[verifier::spinoff_prover]
proof fn lemma_pair_is_asm(e: Expr, env: Map<Seq<char>, usize>, sp: int, count: int)
    requires
        compile_spec(e, env, sp, count) is Some,
        0 <= sp,
        i32::MIN <= count,
        e is Let || e is Plus,
    ensures
        compile_spec(e, env, sp, count)->Some_0.0 == asm_text(asm_of(e, env, sp, count)),
    decreases e, 0int,
{
    reveal_strlit("\n");
    match e {
        Expr::Let(x, a, b) => {
            lemma_code_is_asm(*a, env, sp, count);
            lemma_counter(*a, env, sp, count);
            lemma_code_is_asm(*b, env.insert(x@, sp as usize), sp + 1, count + ifs(*a));
            lemma_let_text(
                asm_of(*a, env, sp, count),
                asm_of(*b, env.insert(x@, sp as usize), sp + 1, count + ifs(*a)),
                sp,
            );
        },
        Expr::Plus(a, b) => {
            lemma_code_is_asm(*a, env, sp, count);
            lemma_counter(*a, env, sp, count);
            lemma_code_is_asm(*b, env, sp + 1, count + ifs(*a));
            lemma_plus_text(asm_of(*a, env, sp, count), asm_of(*b, env, sp + 1, count + ifs(*a)), sp);
        },
        _ => {},
    }
}

#[verifier::spinoff_prover]
proof fn lemma_if_is_asm(e: Expr, env: Map<Seq<char>, usize>, sp: int, count: int)
    requires
        compile_spec(e, env, sp, count) is Some,
        0 <= sp,
        i32::MIN <= count,
        e is If,
    ensures
        compile_spec(e, env, sp, count)->Some_0.0 == asm_text(asm_of(e, env, sp, count)),
    decreases e, 0int,
{
    reveal_strlit("\n");
    match e {
        Expr::If(a, b, c) => {
            let k1 = count + 1 + ifs(*a);
            let k2 = k1 + ifs(*b);
            lemma_code_is_asm(*a, env, sp, count + 1);
            lemma_counter(*a, env, sp, count + 1);
            lemma_code_is_asm(*b, env, sp, k1);
            lemma_counter(*b, env, sp, k1);
            lemma_code_is_asm(*c, env, sp, k2);
            lemma_counter(*c, env, sp, k2);
            reveal_strlit("\n                      cmp rax, 0\n                      je label_else_");
            reveal_strlit("\n                      cmp rax, ");
            reveal_strlit("\n                      je label_else_");
            reveal_strlit("0");
            assert(int_text(0) =~= "0"@);
            let lit = "\n                      cmp rax, 0\n                      je label_else_"@;
            assert(lit =~= "\n                      cmp rax, "@ + int_text(0) + "\n                      je label_else_"@);
            lemma_if_text(
                asm_of(*a, env, sp, count + 1),
                0,
                asm_of(*b, env, sp, k1),
                asm_of(*c, env, sp, k2),
                k2 + ifs(*c),
                lit,
            );
        },
        _ => {},
    }
}

/// Running the code of `e` leaves the value of `e` in `rax` and keeps every
/// slot below `sp`.
#[verifier::spinoff_prover]
#[verifier::rlimit(60)]
pub proof fn lemma_code_computes_value(
    e: Expr,
    venv: Map<Seq<char>, int>,
    env: Map<Seq<char>, usize>,
    sp: int,
    count: int,
    rax: int,
    mem: Map<int, int>,
)
    requires
        compile_spec(e, env, sp, count) is Some,
        0 <= sp,
        frame_holds(venv, env, sp, mem),
    ensures
        asm_run(asm_of(e, env, sp, count), (rax, mem)).0 == value(e, venv),
        keeps_below(mem, asm_run(asm_of(e, env, sp, count), (rax, mem)).1, sp),
    decreases e,
{
    match e {
        Expr::Add1(a) => {
            lemma_code_computes_value(*a, venv, env, sp, count, rax, mem);
            lemma_run_cat(asm_of(*a, env, sp, count), Asm::Line(0, Op::AddImm(1)), (rax, mem));
        },
        Expr::Sub1(a) => {
            lemma_code_computes_value(*a, venv, env, sp, count, rax, mem);
            lemma_run_cat(asm_of(*a, env, sp, count), Asm::Line(0, Op::SubImm(1)), (rax, mem));
        },
        Expr::Neg(a) => {
            lemma_code_computes_value(*a, venv, env, sp, count, rax, mem);
            lemma_run_cat(asm_of(*a, env, sp, count), Asm::Line(0, Op::Negate), (rax, mem));
        },
        Expr::Var(x) => {
            assert(env.dom().contains(x@));
        },
        Expr::Let(x, a, b) => {
            lemma_code_computes_value(*a, venv, env, sp, count, rax, mem);
            lemma_counter(*a, env, sp, count);
            let st1 = asm_run(asm_of(*a, env, sp, count), (rax, mem));
            let mem2 = st1.1.insert(sp, st1.0);
            let venv2 = venv.insert(x@, value(*a, venv));
            let env2 = env.insert(x@, sp as usize);
            lemma_frame_extend(venv, env, sp, st1.1, x@, st1.0);
            lemma_run_cat(asm_of(*a, env, sp, count), Asm::Line(0, Op::Store(sp as usize)), (rax, mem));
            lemma_run_cat(
                cat(asm_of(*a, env, sp, count), Asm::Line(0, Op::Store(sp as usize))),
                asm_of(*b, env2, sp + 1, count + ifs(*a)),
                (rax, mem),
            );
            lemma_code_computes_value(*b, venv2, env2, sp + 1, count + ifs(*a), st1.0, mem2);
            lemma_keeps_trans(mem, st1.1, mem2, asm_run(asm_of(*b, env2, sp + 1, count + ifs(*a)), (st1.0, mem2)).1, sp);
        },
        Expr::Plus(a, b) => {
            lemma_code_computes_value(*a, venv, env, sp, count, rax, mem);
            lemma_counter(*a, env, sp, count);
            let st1 = asm_run(asm_of(*a, env, sp, count), (rax, mem));
            let mem2 = st1.1.insert(sp, st1.0);
            lemma_frame_store(venv, env, sp, st1.1, st1.0);
            let xa = asm_of(*a, env, sp, count);
            let xb = asm_of(*b, env, sp + 1, count + ifs(*a));
            let l1 = Asm::Line(17, Op::Store(sp as usize));
            let ib = Asm::Indent(17, Box::new(xb));
            let l2 = Asm::Line(17, Op::AddMem(sp as usize));
            lemma_run_cat(xa, l1, (rax, mem));
            lemma_run_cat(cat(xa, l1), ib, (rax, mem));
            lemma_run_cat(cat(cat(xa, l1), ib), l2, (rax, mem));
            lemma_run_cat(cat(cat(cat(xa, l1), ib), l2), Asm::Line(16, Op::Blank), (rax, mem));
            lemma_code_computes_value(*b, venv, env, sp + 1, count + ifs(*a), st1.0, mem2);
            let st2 = asm_run(asm_of(*b, env, sp + 1, count + ifs(*a)), (st1.0, mem2));
            assert(mem2.dom().contains(sp));
            assert(st2.1.dom().contains(sp) && st2.1[sp] == st1.0);
            lemma_keeps_trans(mem, st1.1, mem2, st2.1, sp);
        },
        Expr::If(a, b, c) => {
            let k1 = count + 1 + ifs(*a);
            let k2 = k1 + ifs(*b);
            lemma_code_computes_value(*a, venv, env, sp, count + 1, rax, mem);
            lemma_counter(*a, env, sp, count + 1);
            lemma_counter(*b, env, sp, k1);
            let st1 = asm_run(asm_of(*a, env, sp, count + 1), (rax, mem));
            lemma_frame_keep(venv, env, sp, mem, st1.1);
            if st1.0 == 0 {
                lemma_code_computes_value(*c, venv, env, sp, k2, st1.0, st1.1);
                lemma_keeps_trans(mem, st1.1, st1.1, asm_run(asm_of(*c, env, sp, k2), st1).1, sp);
            } else {
                lemma_code_computes_value(*b, venv, env, sp, k1, st1.0, st1.1);
                lemma_keeps_trans(mem, st1.1, st1.1, asm_run(asm_of(*b, env, sp, k1), st1).1, sp);
            }
        },
        _ => {},
    }
}






/// The program of a closed expression is the text of its code in the
/// assembly model, and running that code, from any `rax` and stack, leaves
/// the value of the expression in `rax`.
pub proof fn lemma_program_computes_value(e: Expr, rax: int, mem: Map<int, int>)
    requires
        compile_spec(e, Map::empty(), 1, 0) is Some,
    ensures
        compile_spec(e, Map::empty(), 1, 0)->Some_0.0 == asm_text(asm_of(e, Map::empty(), 1, 0)),
        program_text(compile_spec(e, Map::empty(), 1, 0)->Some_0.0) == program_text(
            asm_text(asm_of(e, Map::empty(), 1, 0)),
        ),
        asm_run(asm_of(e, Map::empty(), 1, 0), (rax, mem)).0 == value(e, Map::empty()),
{
    lemma_code_is_asm(e, Map::empty(), 1, 0);
    lemma_code_computes_value(e, Map::empty(), Map::empty(), 1, 0, rax, mem);
}

} // verus!
