//! What the code of the current stage computes for expressions made of
//! numbers, booleans, `input`, `add1`, `sub1`, `negate`, variables, `let`,
//! `if`, `+`, `*` and `=`: the text that `compile_expr` writes is the text
//! of a code of the assembly model, and running that code either leaves the
//! tagged value of the expression in `rax` or stops at the error handler
//! with the code of the first failed check.
use vstd::prelude::*;
use crate::machine::{
    asm_fault, asm_run, asm_text, cat, check_text, compare_text, keeps_below, lemma_around_text,
    lemma_cat_step, lemma_if_text, lemma_keeps_trans, lemma_line_text, lemma_run_cat,
    lemma_unary_text, op_text, wrap64, Asm, Op,
};
use crate::text::{int_text, nat_text};
use super::compiler::{
    compile_spec, label_draws, label_text, lemma_counter_advance, max_nat, test_number_text, vars,
    FALSE, TRUE,
};
use crate::week5_vec::expr::Expr;

verus! {

/// Whether `e` is made of numbers, booleans, `input`, `add1`, `sub1`,
/// `negate`, variables, `let`, `if`, `+`, `*` and `=` only.
pub open spec fn plain(e: Expr) -> bool
    decreases e,
{
    match e {
        Expr::Num(_) | Expr::Var(_) | Expr::Input | Expr::True | Expr::False => true,
        Expr::Add1(a) | Expr::Sub1(a) | Expr::Neg(a) => plain(*a),
        Expr::Let(_, a, b) | Expr::Plus(a, b) | Expr::Mult(a, b) | Expr::Eq(a, b) => plain(*a)
            && plain(*b),
        Expr::If(a, b, c) => plain(*a) && plain(*b) && plain(*c),
        _ => false,
    }
}

/// Whether `v` is a tagged number: its two low bits, which the check of the
/// code tests, are clear.
pub open spec fn passes_check(v: int) -> bool {
    v % 4 == 0
}

/// What evaluating `e` gives, with the variables bound by `venv` and the
/// input `input`: `Ok` with the tagged value, or `Err` with the error code
/// of the first operand of `+` or `*` that is no tagged number (99 for the
/// first operand, 33 for the second). A number `n` is `n` shifted left by
/// one, `true` is 7 and `false` is 3; `add1` and `sub1` add and subtract the
/// tagged one (2); arithmetic wraps around in 64 bits; `+` adds, `*` halves
/// its second operand and multiplies; `=` is `true` exactly when its
/// operands are equal; `let` binds its variable to the value of its first
/// operand for the body; a conditional has the value of its then branch
/// unless its condition is false (3), when it has that of its else branch.
pub open spec fn outcome(e: Expr, venv: Map<Seq<char>, int>, input: int) -> Result<int, int>
    decreases e,
{
    match e {
        Expr::Num(n) => Ok((n << 1) as int),
        Expr::True => Ok(7),
        Expr::False => Ok(3),
        Expr::Input => Ok(input),
        Expr::Var(x) => Ok(venv[x@]),
        Expr::Add1(a) => match outcome(*a, venv, input) {
            Ok(v) => Ok(wrap64(v + 2)),
            Err(c) => Err(c),
        },
        Expr::Sub1(a) => match outcome(*a, venv, input) {
            Ok(v) => Ok(wrap64(v - 2)),
            Err(c) => Err(c),
        },
        Expr::Neg(a) => match outcome(*a, venv, input) {
            Ok(v) => Ok(wrap64(-v)),
            Err(c) => Err(c),
        },
        Expr::Let(x, a, b) => match outcome(*a, venv, input) {
            Ok(v) => outcome(*b, venv.insert(x@, v), input),
            Err(c) => Err(c),
        },
        Expr::If(c, t, f) => match outcome(*c, venv, input) {
            Ok(v) => if v == 3 {
                outcome(*f, venv, input)
            } else {
                outcome(*t, venv, input)
            },
            Err(code) => Err(code),
        },
        Expr::Plus(a, b) => match outcome(*a, venv, input) {
            Err(c) => Err(c),
            Ok(v1) => if !passes_check(v1) {
                Err(99)
            } else {
                match outcome(*b, venv, input) {
                    Err(c) => Err(c),
                    Ok(v2) => if !passes_check(v2) {
                        Err(33)
                    } else {
                        Ok(wrap64(v1 + v2))
                    },
                }
            },
        },
        Expr::Mult(a, b) => match outcome(*a, venv, input) {
            Err(c) => Err(c),
            Ok(v1) => if !passes_check(v1) {
                Err(99)
            } else {
                match outcome(*b, venv, input) {
                    Err(c) => Err(c),
                    Ok(v2) => if !passes_check(v2) {
                        Err(33)
                    } else {
                        Ok(wrap64((v2 / 2) * v1))
                    },
                }
            },
        },
        Expr::Eq(a, b) => match outcome(*a, venv, input) {
            Err(c) => Err(c),
            Ok(v1) => match outcome(*b, venv, input) {
                Err(c) => Err(c),
                Ok(v2) => Ok(
                    if v1 == v2 {
                        7
                    } else {
                        3
                    },
                ),
            },
        },
        _ => Ok(0),
    }
}

/// The code of `+` or `*` around the codes `x` and `y` of its operands,
/// the first saved in slot `sp`.
pub open spec fn arith_asm(mult: bool, x: Asm, y: Asm, sp: int) -> Asm {
    let k = sp as usize;
    let save = if mult {
        Op::StoreScaled(k)
    } else {
        Op::StoreFrame(k)
    };
    let head = cat(
        cat(cat(cat(x, Asm::Check(17, 3, 99)), Asm::Line(17, save)), Asm::Indent(17, Box::new(y))),
        Asm::Check(17, 3, 33),
    );
    if mult {
        cat(
            cat(cat(head, Asm::Line(17, Op::HalveRax)), Asm::Line(17, Op::MulScaled(k))),
            Asm::Line(16, Op::Blank),
        )
    } else {
        cat(cat(head, Asm::Line(17, Op::AddFrame(k))), Asm::Line(16, Op::Blank))
    }
}

/// The code of `=` around the codes `x` and `y` of its operands, the first
/// saved in slot `sp`, with exit label number `l`.
pub open spec fn eq_asm(x: Asm, y: Asm, sp: int, l: int) -> Asm {
    cat(
        cat(cat(x, Asm::Line(17, Op::StoreFrame(sp as usize))), Asm::Indent(17, Box::new(y))),
        Asm::Compare(true, sp as usize, l as i32, 3, 7),
    )
}

/// The code of a plain `e` in the assembly model, with variables at the
/// frame slots of `env`, the next free slot `sp` and label counter `count`.
pub open spec fn asm_of(e: Expr, env: Map<Seq<char>, i32>, sp: int, count: int) -> Asm
    decreases e,
{
    match e {
        Expr::Num(n) => Asm::Line(0, Op::MovImm(n << 1)),
        Expr::Add1(a) => cat(asm_of(*a, env, sp, count), Asm::Line(0, Op::AddImm(2))),
        Expr::Sub1(a) => cat(asm_of(*a, env, sp, count), Asm::Line(0, Op::SubImm(2))),
        Expr::Neg(a) => cat(asm_of(*a, env, sp, count), Asm::Line(0, Op::Negate)),
        Expr::Var(x) => Asm::Line(0, Op::LoadFrame(env[x@])),
        Expr::Let(x, a, b) => cat(
            cat(asm_of(*a, env, sp, count), Asm::Line(0, Op::StoreFrame(sp as usize))),
            asm_of(*b, env.insert(x@, sp as i32), sp + 1, count + label_draws(*a)),
        ),
        Expr::Plus(a, b) => arith_asm(
            false,
            asm_of(*a, env, sp, count),
            asm_of(*b, env, sp + 1, count + label_draws(*a)),
            sp,
        ),
        Expr::Mult(a, b) => arith_asm(
            true,
            asm_of(*a, env, sp, count),
            asm_of(*b, env, sp + 1, count + label_draws(*a)),
            sp,
        ),
        Expr::Eq(a, b) => eq_asm(
            asm_of(*a, env, sp, count),
            asm_of(*b, env, sp + 1, count + label_draws(*a)),
            sp,
            count + label_draws(*a) + label_draws(*b) + 1,
        ),
        Expr::If(a, b, c) => {
            let k1 = count + 1 + label_draws(*a);
            let k2 = k1 + label_draws(*b);
            Asm::Branch(
                Box::new(asm_of(*a, env, sp, count + 1)),
                3,
                (k2 + label_draws(*c)) as i32,
                Box::new(asm_of(*b, env, sp, k1)),
                Box::new(asm_of(*c, env, sp, k2)),
            )
        },
        Expr::Input => Asm::Line(0, Op::LoadFrameInput),
        Expr::True => Asm::Line(0, Op::MovImm(7)),
        Expr::False => Asm::Line(0, Op::MovImm(3)),
        _ => Asm::Line(0, Op::Blank),
    }
}

/// Compiling a plain `e` advances the label counter by its draws and keeps
/// it within `i32`.
proof fn lemma_counter_facts(e: Expr, env: Map<Seq<char>, i32>, sp: int, count: int, brk: Seq<char>)
    requires
        plain(e),
        compile_spec(e, env, sp, count, brk) is Some,
    ensures
        compile_spec(e, env, sp, count, brk)->Some_0.1 == count + label_draws(e),
        count <= i32::MAX ==> compile_spec(e, env, sp, count, brk)->Some_0.1 <= i32::MAX,
    decreases e,
{
    lemma_counter_advance(e, env, sp, count, brk);
    match e {
        Expr::Add1(a) => lemma_counter_facts(*a, env, sp, count, brk),
        Expr::Sub1(a) => lemma_counter_facts(*a, env, sp, count, brk),
        Expr::Neg(a) => lemma_counter_facts(*a, env, sp, count, brk),
        Expr::Let(x, a, b) => {
            lemma_counter_facts(*a, env, sp, count, brk);
            lemma_counter_facts(*b, env.insert(x@, sp as i32), sp + 1, count + label_draws(*a), brk);
        },
        Expr::Plus(a, b) | Expr::Mult(a, b) | Expr::Eq(a, b) => {
            lemma_counter_facts(*a, env, sp, count, brk);
            lemma_counter_facts(*b, env, sp + 1, count + label_draws(*a), brk);
        },
        Expr::If(a, b, c) => {
            lemma_counter_facts(*a, env, sp, count + 1, brk);
            lemma_counter_facts(*b, env, sp, count + 1 + label_draws(*a), brk);
            lemma_counter_facts(*c, env, sp, count + 1 + label_draws(*a) + label_draws(*b), brk);
        },
        _ => {},
    }
}

/// The text that `compile_expr` writes for a plain `e` is the text of
/// `asm_of(e)`.
#[verifier::spinoff_prover]
pub proof fn lemma_code_is_asm(
    e: Expr,
    env: Map<Seq<char>, i32>,
    sp: int,
    count: int,
    brk: Seq<char>,
)
    requires
        plain(e),
        compile_spec(e, env, sp, count, brk) is Some,
        0 <= sp,
        i32::MIN <= count,
    ensures
        compile_spec(e, env, sp, count, brk)->Some_0.0 == asm_text(asm_of(e, env, sp, count)),
    decreases e, 1int,
{
    match e {
        Expr::Num(n) => lemma_line_text(Op::MovImm(n << 1)),
        Expr::Input => lemma_line_text(Op::LoadFrameInput),
        Expr::Var(x) => lemma_line_text(Op::LoadFrame(env[x@])),
        Expr::True | Expr::False => lemma_bool_text(e, env, sp, count, brk),
        Expr::Add1(_) | Expr::Sub1(_) | Expr::Neg(_) => lemma_unary_is_asm(e, env, sp, count, brk),
        Expr::Let(..) => lemma_let_is_asm(e, env, sp, count, brk),
        Expr::If(..) => lemma_if_is_asm(e, env, sp, count, brk),
        Expr::Plus(..) | Expr::Mult(..) | Expr::Eq(..) => lemma_pair_is_asm(e, env, sp, count, brk),
        _ => {},
    }
}

#[verifier::spinoff_prover]
proof fn lemma_bool_text(
    e: Expr,
    env: Map<Seq<char>, i32>,
    sp: int,
    count: int,
    brk: Seq<char>,
)
    requires
        plain(e),
        e is True || e is False,
        compile_spec(e, env, sp, count, brk) is Some,
        0 <= sp,
        i32::MIN <= count,
    ensures
        compile_spec(e, env, sp, count, brk)->Some_0.0 == asm_text(asm_of(e, env, sp, count)),
    decreases e, 0int,
{
    if e is True {
        assert(int_text(7) == nat_text(TRUE as nat));
        lemma_line_text(Op::MovImm(7));
    } else {
        assert(int_text(3) == nat_text(FALSE as nat));
        lemma_line_text(Op::MovImm(3));
    }
}

#[verifier::spinoff_prover]
#[verifier::rlimit(100)]
proof fn lemma_unary_is_asm(
    e: Expr,
    env: Map<Seq<char>, i32>,
    sp: int,
    count: int,
    brk: Seq<char>,
)
    requires
        plain(e),
        e is Add1 || e is Sub1 || e is Neg,
        compile_spec(e, env, sp, count, brk) is Some,
        0 <= sp,
        i32::MIN <= count,
    ensures
        compile_spec(e, env, sp, count, brk)->Some_0.0 == asm_text(asm_of(e, env, sp, count)),
    decreases e, 0int,
{
    reveal_strlit("\n");
    match e {
        Expr::Add1(a) => {
            lemma_code_is_asm(*a, env, sp, count, brk);
            reveal_strlit("\nadd rax, 2");
            reveal_strlit("add rax, ");
            reveal_strlit("2");
            assert(int_text(2) =~= "2"@);
            assert("\nadd rax, 2"@ =~= "\n"@ + op_text(Op::AddImm(2)));
            lemma_unary_text(asm_of(*a, env, sp, count), Op::AddImm(2), "\nadd rax, 2"@);
        },
        Expr::Sub1(a) => {
            lemma_code_is_asm(*a, env, sp, count, brk);
            reveal_strlit("\nsub rax, 2");
            reveal_strlit("sub rax, ");
            reveal_strlit("2");
            assert(int_text(2) =~= "2"@);
            assert("\nsub rax, 2"@ =~= "\n"@ + op_text(Op::SubImm(2)));
            lemma_unary_text(asm_of(*a, env, sp, count), Op::SubImm(2), "\nsub rax, 2"@);
        },
        Expr::Neg(a) => {
            lemma_code_is_asm(*a, env, sp, count, brk);
            reveal_strlit("\nneg rax");
            reveal_strlit("neg rax");
            assert("\nneg rax"@ =~= "\n"@ + op_text(Op::Negate));
            lemma_unary_text(asm_of(*a, env, sp, count), Op::Negate, "\nneg rax"@);
        },
        _ => {},
    }
}

#[verifier::spinoff_prover]
proof fn lemma_let_is_asm(
    e: Expr,
    env: Map<Seq<char>, i32>,
    sp: int,
    count: int,
    brk: Seq<char>,
)
    requires
        plain(e),
        e is Let,
        compile_spec(e, env, sp, count, brk) is Some,
        0 <= sp,
        i32::MIN <= count,
    ensures
        compile_spec(e, env, sp, count, brk)->Some_0.0 == asm_text(asm_of(e, env, sp, count)),
    decreases e, 0int,
{
    if let Expr::Let(x, a, b) = e {
        lemma_code_is_asm(*a, env, sp, count, brk);
        lemma_counter_facts(*a, env, sp, count, brk);
        lemma_code_is_asm(*b, env.insert(x@, sp as i32), sp + 1, count + label_draws(*a), brk);
        lemma_around_text(
            asm_of(*a, env, sp, count),
            Op::StoreFrame(sp as usize),
            asm_of(*b, env.insert(x@, sp as i32), sp + 1, count + label_draws(*a)),
        );
    }
}

#[verifier::spinoff_prover]
proof fn lemma_if_is_asm(
    e: Expr,
    env: Map<Seq<char>, i32>,
    sp: int,
    count: int,
    brk: Seq<char>,
)
    requires
        plain(e),
        e is If,
        compile_spec(e, env, sp, count, brk) is Some,
        0 <= sp,
        i32::MIN <= count,
    ensures
        compile_spec(e, env, sp, count, brk)->Some_0.0 == asm_text(asm_of(e, env, sp, count)),
    decreases e, 0int,
{
    if let Expr::If(a, b, c) = e {
        let k1 = count + 1 + label_draws(*a);
        let k2 = k1 + label_draws(*b);
        lemma_code_is_asm(*a, env, sp, count + 1, brk);
        lemma_counter_facts(*a, env, sp, count + 1, brk);
        lemma_code_is_asm(*b, env, sp, k1, brk);
        lemma_counter_facts(*b, env, sp, k1, brk);
        lemma_code_is_asm(*c, env, sp, k2, brk);
        lemma_counter_facts(*c, env, sp, k2, brk);
        reveal_strlit("\n                      cmp rax, ");
        reveal_strlit("\n                      je label_else_");
        assert(int_text(3) == nat_text(FALSE as nat));
        let lit = "\n                      cmp rax, "@ + int_text(3) + "\n                      je label_else_"@;
        let c1 = asm_text(asm_of(*a, env, sp, count + 1));
        assert(c1 + "\n                      cmp rax, "@ + nat_text(FALSE as nat)
            + "\n                      je label_else_"@ =~= c1 + lit);
        lemma_if_text(
            asm_of(*a, env, sp, count + 1),
            3,
            asm_of(*b, env, sp, k1),
            asm_of(*c, env, sp, k2),
            k2 + label_draws(*c),
            lit,
        );
    }
}

#[verifier::spinoff_prover]
proof fn lemma_pair_is_asm(
    e: Expr,
    env: Map<Seq<char>, i32>,
    sp: int,
    count: int,
    brk: Seq<char>,
)
    requires
        plain(e),
        e is Plus || e is Mult || e is Eq,
        compile_spec(e, env, sp, count, brk) is Some,
        0 <= sp,
        i32::MIN <= count,
    ensures
        compile_spec(e, env, sp, count, brk)->Some_0.0 == asm_text(asm_of(e, env, sp, count)),
    decreases e, 0int,
{
    let (a, b) = match e {
        Expr::Plus(a, b) => (*a, *b),
        Expr::Mult(a, b) => (*a, *b),
        Expr::Eq(a, b) => (*a, *b),
        _ => (e, e),
    };
    assert(decreases_to!(e => a));
    assert(decreases_to!(e => b));
    let k1 = count + label_draws(a);
    lemma_code_is_asm(a, env, sp, count, brk);
    lemma_counter_facts(a, env, sp, count, brk);
    lemma_code_is_asm(b, env, sp + 1, k1, brk);
    lemma_counter_facts(b, env, sp + 1, k1, brk);
    let x = asm_of(a, env, sp, count);
    let y = asm_of(b, env, sp + 1, k1);
    match e {
        Expr::Plus(..) => lemma_arith_text(false, x, y, sp),
        Expr::Mult(..) => lemma_arith_text(true, x, y, sp),
        _ => lemma_eq_text(x, y, sp, k1 + label_draws(b) + 1),
    }
}

/// The text of the code of `+` and `*`.
#[verifier::spinoff_prover]
#[verifier::rlimit(80)]
proof fn lemma_arith_text(mult: bool, x: Asm, y: Asm, sp: int)
    requires
        0 <= sp,
        sp + 1 <= usize::MAX,
        mult ==> 8 * sp <= usize::MAX,
    ensures
        !mult ==> asm_text(arith_asm(mult, x, y, sp)) == asm_text(x) + "\n                 "@
            + test_number_text(99) + "\n                 mov [rbp - 8*"@ + nat_text(sp as nat)
            + "], rax\n                 "@ + asm_text(y) + "\n                 "@ + test_number_text(33)
            + "\n                 add rax, [rbp - 8*"@ + nat_text(sp as nat) + "]\n                "@,
        mult ==> asm_text(arith_asm(mult, x, y, sp)) == asm_text(x) + "\n                 "@
            + test_number_text(99) + "\n                 mov [rbp - "@ + nat_text((8 * sp) as nat)
            + "], rax\n                 "@ + asm_text(y) + "\n                 "@ + test_number_text(33)
            + "\n                 sar rax, 1\n                 imul rax, [rbp - "@ + nat_text(
            (8 * sp) as nat,
        ) + "]\n                "@,
{
    reveal(check_text);
    reveal_strlit("\n");
    reveal_strlit("\n                 ");
    reveal_strlit("\n                 mov [rbp - 8*");
    reveal_strlit("\n                 mov [rbp - ");
    reveal_strlit("], rax\n                 ");
    reveal_strlit("\n                 add rax, [rbp - 8*");
    reveal_strlit("\n                 sar rax, 1\n                 imul rax, [rbp - ");
    reveal_strlit("]\n                ");
    reveal_strlit("mov [rbp - 8*");
    reveal_strlit("mov [rbp - ");
    reveal_strlit("], rax");
    reveal_strlit("add rax, [rbp - 8*");
    reveal_strlit("sar rax, 1");
    reveal_strlit("imul rax, [rbp - ");
    reveal_strlit("]");
    reveal_strlit("                 ");
    reveal_strlit("                ");
    let s17 = "                 "@;
    let s16 = "                "@;
    assert(crate::lines::spaces(17) =~= s17);
    assert(crate::lines::spaces(16) =~= s16);
    let k = sp as usize;
    let c99 = Asm::Check(17, 3, 99);
    let c33 = Asm::Check(17, 3, 33);
    assert(asm_text(c99) == s17 + test_number_text(99));
    assert(asm_text(c33) == s17 + test_number_text(33));
    let save = if mult {
        Op::StoreScaled(k)
    } else {
        Op::StoreFrame(k)
    };
    let sv = Asm::Line(17, save);
    let iy = Asm::Indent(17, Box::new(y));
    let t1 = asm_text(cat(x, c99));
    let t2 = asm_text(cat(cat(x, c99), sv));
    let t3 = asm_text(cat(cat(cat(x, c99), sv), iy));
    let head = cat(cat(cat(cat(x, c99), sv), iy), c33);
    let t4 = asm_text(head);
    assert(t1 == asm_text(x) + "\n"@ + asm_text(c99));
    assert(t2 == t1 + "\n"@ + asm_text(sv));
    assert(t3 == t2 + "\n"@ + asm_text(iy));
    assert(asm_text(iy) == s17 + asm_text(y));
    assert(t4 == t3 + "\n"@ + asm_text(c33));
    let bl = Asm::Line(16, Op::Blank);
    assert(asm_text(bl) =~= s16);
    if mult {
        let n8 = nat_text((8 * sp) as nat);
        assert(asm_text(sv) =~= s17 + ("mov [rbp - "@ + n8 + "], rax"@));
        let h = Asm::Line(17, Op::HalveRax);
        let m = Asm::Line(17, Op::MulScaled(k));
        assert(asm_text(h) =~= s17 + "sar rax, 1"@);
        assert(asm_text(m) =~= s17 + ("imul rax, [rbp - "@ + n8 + "]"@));
        let t5 = asm_text(cat(head, h));
        let t6 = asm_text(cat(cat(head, h), m));
        assert(t5 == t4 + "\n"@ + asm_text(h));
        assert(t6 == t5 + "\n"@ + asm_text(m));
        assert(asm_text(arith_asm(mult, x, y, sp)) == t6 + "\n"@ + asm_text(bl));
        assert(t6 + "\n"@ + asm_text(bl) =~= asm_text(x) + "\n                 "@ + test_number_text(99)
            + "\n                 mov [rbp - "@ + n8 + "], rax\n                 "@ + asm_text(y)
            + "\n                 "@ + test_number_text(33)
            + "\n                 sar rax, 1\n                 imul rax, [rbp - "@ + n8
            + "]\n                "@);
    } else {
        let n = nat_text(sp as nat);
        assert(asm_text(sv) =~= s17 + ("mov [rbp - 8*"@ + n + "], rax"@));
        let ad = Asm::Line(17, Op::AddFrame(k));
        assert(asm_text(ad) =~= s17 + ("add rax, [rbp - 8*"@ + n + "]"@));
        let t5 = asm_text(cat(head, ad));
        assert(t5 == t4 + "\n"@ + asm_text(ad));
        assert(asm_text(arith_asm(mult, x, y, sp)) == t5 + "\n"@ + asm_text(bl));
        assert(t5 + "\n"@ + asm_text(bl) =~= asm_text(x) + "\n                 "@ + test_number_text(99)
            + "\n                 mov [rbp - 8*"@ + n + "], rax\n                 "@ + asm_text(y)
            + "\n                 "@ + test_number_text(33) + "\n                 add rax, [rbp - 8*"@
            + n + "]\n                "@);
    }
}

/// The text of the code of `=`.
#[verifier::spinoff_prover]
#[verifier::rlimit(80)]
proof fn lemma_eq_text(x: Asm, y: Asm, sp: int, l: int)
    requires
        0 <= sp,
        sp + 1 <= usize::MAX,
        i32::MIN <= l <= i32::MAX,
    ensures
        asm_text(eq_asm(x, y, sp, l)) == asm_text(x) + "\n                 mov [rbp - 8*"@ + nat_text(
            sp as nat,
        ) + "], rax\n                 "@ + asm_text(y) + "\n                 cmp rax, [rbp - 8*"@
            + nat_text(sp as nat) + "]\n                 mov rax, "@ + nat_text(FALSE as nat)
            + "\n                 jne "@ + label_text("eq_exit"@, l) + "\n                 mov rax, "@
            + nat_text(TRUE as nat) + "\n               "@ + label_text("eq_exit"@, l)
            + ":\n                "@,
{
    reveal(compare_text);
    reveal_strlit("\n");
    reveal_strlit("\n                 mov [rbp - 8*");
    reveal_strlit("], rax\n                 ");
    reveal_strlit("\n                 cmp rax, [rbp - 8*");
    reveal_strlit("                 cmp rax, [rbp - 8*");
    reveal_strlit("mov [rbp - 8*");
    reveal_strlit("], rax");
    reveal_strlit("                 ");
    let s17 = "                 "@;
    assert(crate::lines::spaces(17) =~= s17);
    let n = nat_text(sp as nat);
    let sv = Asm::Line(17, Op::StoreFrame(sp as usize));
    let iy = Asm::Indent(17, Box::new(y));
    let eqt = Asm::Compare(true, sp as usize, l as i32, 3, 7);
    assert(asm_text(sv) =~= s17 + ("mov [rbp - 8*"@ + n + "], rax"@));
    assert(asm_text(iy) == s17 + asm_text(y));
    let t1 = asm_text(cat(x, sv));
    let t2 = asm_text(cat(cat(x, sv), iy));
    assert(t1 == asm_text(x) + "\n"@ + asm_text(sv));
    assert(t2 == t1 + "\n"@ + asm_text(iy));
    assert(asm_text(eq_asm(x, y, sp, l)) == t2 + "\n"@ + asm_text(eqt));
    let ex = label_text("eq_exit"@, l);
    assert(asm_text(eqt) == "                 cmp rax, [rbp - 8*"@ + n + "]\n                 mov rax, "@
        + nat_text(FALSE as nat) + "\n                 jne "@ + ex + "\n                 mov rax, "@
        + nat_text(TRUE as nat) + "\n               "@ + ex + ":\n                "@);
    assert(t2 + "\n"@ + asm_text(eqt) =~= asm_text(x) + "\n                 mov [rbp - 8*"@ + n
        + "], rax\n                 "@ + asm_text(y) + "\n                 cmp rax, [rbp - 8*"@ + n
        + "]\n                 mov rax, "@ + nat_text(FALSE as nat) + "\n                 jne "@ + ex
        + "\n                 mov rax, "@ + nat_text(TRUE as nat) + "\n               "@ + ex
        + ":\n                "@);
}

/// Whether running `a` from `st` gives `r`: with `Ok(v)`, it runs through
/// every check and leaves `v` in `rax`; with `Err(c)`, it stops at the
/// error handler with code `c`.
pub open spec fn computes(a: Asm, st: (int, Map<int, int>), r: Result<int, int>) -> bool {
    match r {
        Ok(v) => asm_fault(a, st) is None && asm_run(a, st).0 == v,
        Err(c) => asm_fault(a, st) == Some(c),
    }
}

/// Running the code of a plain `e` gives what evaluating `e` gives, and
/// keeps every slot below `sp`, the input's slot 1 among them.
#[verifier::spinoff_prover]
#[verifier::rlimit(60)]
pub proof fn lemma_code_computes_value(
    e: Expr,
    venv: Map<Seq<char>, int>,
    env: Map<Seq<char>, i32>,
    sp: int,
    count: int,
    brk: Seq<char>,
    input: int,
    rax: int,
    mem: Map<int, int>,
)
    requires
        plain(e),
        compile_spec(e, env, sp, count, brk) is Some,
        2 <= sp,
        sp + vars(e) < i32::MAX,
        mem.dom().contains(1),
        mem[1] == input,
        frame_holds(venv, env, sp, mem),
    ensures
        computes(asm_of(e, env, sp, count), (rax, mem), outcome(e, venv, input)),
        keeps_below(mem, asm_run(asm_of(e, env, sp, count), (rax, mem)).1, sp),
    decreases e, 1int,
{
    match e {
        Expr::Var(x) => {
            assert(env.dom().contains(x@));
        },
        Expr::Add1(_) | Expr::Sub1(_) | Expr::Neg(_) => lemma_value_unary(
            e, venv, env, sp, count, brk, input, rax, mem,
        ),
        Expr::Let(..) => lemma_value_let(e, venv, env, sp, count, brk, input, rax, mem),
        Expr::If(..) => lemma_value_if(e, venv, env, sp, count, brk, input, rax, mem),
        Expr::Plus(..) | Expr::Mult(..) => lemma_value_arith(e, venv, env, sp, count, brk, input, rax, mem),
        Expr::Eq(..) => lemma_value_eq(e, venv, env, sp, count, brk, input, rax, mem),
        _ => {},
    }
}

#[verifier::spinoff_prover]
#[verifier::rlimit(60)]
proof fn lemma_value_unary(
    e: Expr,
    venv: Map<Seq<char>, int>,
    env: Map<Seq<char>, i32>,
    sp: int,
    count: int,
    brk: Seq<char>,
    input: int,
    rax: int,
    mem: Map<int, int>,
)
    requires
        plain(e),
        compile_spec(e, env, sp, count, brk) is Some,
        2 <= sp,
        sp + vars(e) < i32::MAX,
        mem.dom().contains(1),
        mem[1] == input,
        frame_holds(venv, env, sp, mem),
        e is Add1 || e is Sub1 || e is Neg,
    ensures
        computes(asm_of(e, env, sp, count), (rax, mem), outcome(e, venv, input)),
        keeps_below(mem, asm_run(asm_of(e, env, sp, count), (rax, mem)).1, sp),
    decreases e, 0int,
{
    let a = match e {
        Expr::Add1(a) => *a,
        Expr::Sub1(a) => *a,
        Expr::Neg(a) => *a,
        _ => e,
    };
    let op = match e {
        Expr::Add1(_) => Op::AddImm(2),
        Expr::Sub1(_) => Op::SubImm(2),
        _ => Op::Negate,
    };
    assert(decreases_to!(e => a));
    lemma_code_computes_value(a, venv, env, sp, count, brk, input, rax, mem);
    lemma_cat_step(asm_of(a, env, sp, count), Asm::Line(0, op), (rax, mem));
}

#[verifier::spinoff_prover]
#[verifier::rlimit(60)]
proof fn lemma_value_let(
    e: Expr,
    venv: Map<Seq<char>, int>,
    env: Map<Seq<char>, i32>,
    sp: int,
    count: int,
    brk: Seq<char>,
    input: int,
    rax: int,
    mem: Map<int, int>,
)
    requires
        plain(e),
        compile_spec(e, env, sp, count, brk) is Some,
        2 <= sp,
        sp + vars(e) < i32::MAX,
        mem.dom().contains(1),
        mem[1] == input,
        frame_holds(venv, env, sp, mem),
        e is Let,
    ensures
        computes(asm_of(e, env, sp, count), (rax, mem), outcome(e, venv, input)),
        keeps_below(mem, asm_run(asm_of(e, env, sp, count), (rax, mem)).1, sp),
    decreases e, 0int,
{
    if let Expr::Let(x, a, b) = e {
        assert(vars(e) == max_nat(vars(*a), 1 + vars(*b)));
        let xa = asm_of(*a, env, sp, count);
        let st0 = (rax, mem);
        lemma_code_computes_value(*a, venv, env, sp, count, brk, input, rax, mem);
        lemma_counter_facts(*a, env, sp, count, brk);
        let st1 = asm_run(xa, st0);
        let mem2 = st1.1.insert(sp, st1.0);
        let env2 = env.insert(x@, sp as i32);
        let venv2 = venv.insert(x@, st1.0);
        let sv = Asm::Line(0, Op::StoreFrame(sp as usize));
        let xb = asm_of(*b, env2, sp + 1, count + label_draws(*a));
        lemma_frame_extend(venv, env, sp, st1.1, x@, st1.0);
        assert(mem2.dom().contains(1) && mem2[1] == input);
        lemma_code_computes_value(*b, venv2, env2, sp + 1, count + label_draws(*a), brk, input, st1.0, mem2);
        lemma_cat_step(xa, sv, st0);
        lemma_cat_step(cat(xa, sv), xb, st0);
        lemma_keeps_trans(mem, st1.1, mem2, asm_run(xb, (st1.0, mem2)).1, sp);
    }
}

#[verifier::spinoff_prover]
#[verifier::rlimit(60)]
proof fn lemma_value_if(
    e: Expr,
    venv: Map<Seq<char>, int>,
    env: Map<Seq<char>, i32>,
    sp: int,
    count: int,
    brk: Seq<char>,
    input: int,
    rax: int,
    mem: Map<int, int>,
)
    requires
        plain(e),
        compile_spec(e, env, sp, count, brk) is Some,
        2 <= sp,
        sp + vars(e) < i32::MAX,
        mem.dom().contains(1),
        mem[1] == input,
        frame_holds(venv, env, sp, mem),
        e is If,
    ensures
        computes(asm_of(e, env, sp, count), (rax, mem), outcome(e, venv, input)),
        keeps_below(mem, asm_run(asm_of(e, env, sp, count), (rax, mem)).1, sp),
    decreases e, 0int,
{
    if let Expr::If(a, b, c) = e {
        assert(vars(e) == max_nat(vars(*a), max_nat(vars(*b), vars(*c))));
        let k1 = count + 1 + label_draws(*a);
        let k2 = k1 + label_draws(*b);
        lemma_code_computes_value(*a, venv, env, sp, count + 1, brk, input, rax, mem);
        lemma_counter_facts(*a, env, sp, count + 1, brk);
        lemma_counter_facts(*b, env, sp, k1, brk);
        let st1 = asm_run(asm_of(*a, env, sp, count + 1), (rax, mem));
        lemma_frame_keep(venv, env, sp, mem, st1.1);
        assert(st1.1.dom().contains(1) && st1.1[1] == input);
        lemma_code_computes_value(*c, venv, env, sp, k2, brk, input, st1.0, st1.1);
        lemma_keeps_trans(mem, st1.1, st1.1, asm_run(asm_of(*c, env, sp, k2), st1).1, sp);
        lemma_code_computes_value(*b, venv, env, sp, k1, brk, input, st1.0, st1.1);
        lemma_keeps_trans(mem, st1.1, st1.1, asm_run(asm_of(*b, env, sp, k1), st1).1, sp);
    }
}

#[verifier::spinoff_prover]
#[verifier::rlimit(60)]
proof fn lemma_value_arith(
    e: Expr,
    venv: Map<Seq<char>, int>,
    env: Map<Seq<char>, i32>,
    sp: int,
    count: int,
    brk: Seq<char>,
    input: int,
    rax: int,
    mem: Map<int, int>,
)
    requires
        plain(e),
        compile_spec(e, env, sp, count, brk) is Some,
        2 <= sp,
        sp + vars(e) < i32::MAX,
        mem.dom().contains(1),
        mem[1] == input,
        frame_holds(venv, env, sp, mem),
        e is Plus || e is Mult,
    ensures
        computes(asm_of(e, env, sp, count), (rax, mem), outcome(e, venv, input)),
        keeps_below(mem, asm_run(asm_of(e, env, sp, count), (rax, mem)).1, sp),
    decreases e, 0int,
{
    let (a, b) = match e {
        Expr::Plus(a, b) => (*a, *b),
        Expr::Mult(a, b) => (*a, *b),
        Expr::Eq(a, b) => (*a, *b),
        _ => (e, e),
    };
    assert(decreases_to!(e => a));
    assert(decreases_to!(e => b));
    assert(vars(e) == max_nat(vars(a), 1 + vars(b)));
    let st0 = (rax, mem);
    let xa = asm_of(a, env, sp, count);
    let xb = asm_of(b, env, sp + 1, count + label_draws(a));
    lemma_code_computes_value(a, venv, env, sp, count, brk, input, rax, mem);
    lemma_counter_facts(a, env, sp, count, brk);
    let st1 = asm_run(xa, st0);
    let mem2 = st1.1.insert(sp, st1.0);
    lemma_frame_store(venv, env, sp, st1.1, st1.0);
    assert(mem2.dom().contains(1) && mem2[1] == input);
    lemma_code_computes_value(b, venv, env, sp + 1, count + label_draws(a), brk, input, st1.0, mem2);
    let st2 = asm_run(xb, (st1.0, mem2));
    assert(mem2.dom().contains(sp));
    assert(st2.1.dom().contains(sp) && st2.1[sp] == st1.0);
    lemma_keeps_trans(mem, st1.1, mem2, st2.1, sp);
    let mult = e is Mult;
    let k = sp as usize;
    let save = if mult {
        Op::StoreScaled(k)
    } else {
        Op::StoreFrame(k)
    };
    let c99 = Asm::Check(17, 3, 99);
    let c33 = Asm::Check(17, 3, 33);
    let sv = Asm::Line(17, save);
    let iy = Asm::Indent(17, Box::new(xb));
    let p1 = cat(xa, c99);
    let p2 = cat(p1, sv);
    let p3 = cat(p2, iy);
    let head = cat(p3, c33);
    lemma_cat_step(xa, c99, st0);
    lemma_cat_step(p1, sv, st0);
    lemma_cat_step(p2, iy, st0);
    lemma_cat_step(p3, c33, st0);
    assert(asm_run(p2, st0) == (st1.0, mem2));
    assert(asm_run(p3, st0) == st2);
    let bl = Asm::Line(16, Op::Blank);
    if mult {
        let h = Asm::Line(17, Op::HalveRax);
        let m = Asm::Line(17, Op::MulScaled(k));
        lemma_cat_step(head, h, st0);
        lemma_cat_step(cat(head, h), m, st0);
        lemma_cat_step(cat(cat(head, h), m), bl, st0);
    } else {
        let ad = Asm::Line(17, Op::AddFrame(k));
        lemma_cat_step(head, ad, st0);
        lemma_cat_step(cat(head, ad), bl, st0);
    }
}

#[verifier::spinoff_prover]
#[verifier::rlimit(60)]
proof fn lemma_value_eq(
    e: Expr,
    venv: Map<Seq<char>, int>,
    env: Map<Seq<char>, i32>,
    sp: int,
    count: int,
    brk: Seq<char>,
    input: int,
    rax: int,
    mem: Map<int, int>,
)
    requires
        plain(e),
        compile_spec(e, env, sp, count, brk) is Some,
        2 <= sp,
        sp + vars(e) < i32::MAX,
        mem.dom().contains(1),
        mem[1] == input,
        frame_holds(venv, env, sp, mem),
        e is Eq,
    ensures
        computes(asm_of(e, env, sp, count), (rax, mem), outcome(e, venv, input)),
        keeps_below(mem, asm_run(asm_of(e, env, sp, count), (rax, mem)).1, sp),
    decreases e, 0int,
{
    let (a, b) = match e {
        Expr::Plus(a, b) => (*a, *b),
        Expr::Mult(a, b) => (*a, *b),
        Expr::Eq(a, b) => (*a, *b),
        _ => (e, e),
    };
    assert(decreases_to!(e => a));
    assert(decreases_to!(e => b));
    assert(vars(e) == max_nat(vars(a), 1 + vars(b)));
    let st0 = (rax, mem);
    let xa = asm_of(a, env, sp, count);
    let xb = asm_of(b, env, sp + 1, count + label_draws(a));
    lemma_code_computes_value(a, venv, env, sp, count, brk, input, rax, mem);
    lemma_counter_facts(a, env, sp, count, brk);
    let st1 = asm_run(xa, st0);
    let mem2 = st1.1.insert(sp, st1.0);
    lemma_frame_store(venv, env, sp, st1.1, st1.0);
    assert(mem2.dom().contains(1) && mem2[1] == input);
    lemma_code_computes_value(b, venv, env, sp + 1, count + label_draws(a), brk, input, st1.0, mem2);
    let st2 = asm_run(xb, (st1.0, mem2));
    assert(mem2.dom().contains(sp));
    assert(st2.1.dom().contains(sp) && st2.1[sp] == st1.0);
    lemma_keeps_trans(mem, st1.1, mem2, st2.1, sp);
    let sv = Asm::Line(17, Op::StoreFrame(sp as usize));
    let iy = Asm::Indent(17, Box::new(xb));
    let l = count + label_draws(a) + label_draws(b) + 1;
    let eqt = Asm::Compare(true, sp as usize, l as i32, 3, 7);
    lemma_cat_step(xa, sv, st0);
    lemma_cat_step(cat(xa, sv), iy, st0);
    lemma_cat_step(cat(cat(xa, sv), iy), eqt, st0);
}

/// The slots of the variables of `env` lie below `sp` and hold their values.
pub open spec fn frame_holds(
    venv: Map<Seq<char>, int>,
    env: Map<Seq<char>, i32>,
    sp: int,
    mem: Map<int, int>,
) -> bool {
    forall|x: Seq<char>|
        #![trigger env.dom().contains(x)]
        env.dom().contains(x) ==> venv.dom().contains(x) && env[x] < sp && mem.dom().contains(
            env[x] as int,
        ) && mem[env[x] as int] == venv[x]
}

proof fn lemma_frame_keep(venv: Map<Seq<char>, int>, env: Map<Seq<char>, i32>, sp: int, m1: Map<int, int>, m2: Map<int, int>)
    requires
        frame_holds(venv, env, sp, m1),
        keeps_below(m1, m2, sp),
    ensures
        frame_holds(venv, env, sp, m2),
{
}

proof fn lemma_frame_store(venv: Map<Seq<char>, int>, env: Map<Seq<char>, i32>, sp: int, m: Map<int, int>, v: int)
    requires
        frame_holds(venv, env, sp, m),
    ensures
        frame_holds(venv, env, sp + 1, m.insert(sp, v)),
{
}

proof fn lemma_frame_extend(venv: Map<Seq<char>, int>, env: Map<Seq<char>, i32>, sp: int, m: Map<int, int>, x: Seq<char>, v: int)
    requires
        frame_holds(venv, env, sp, m),
        0 <= sp < i32::MAX,
    ensures
        frame_holds(venv.insert(x, v), env.insert(x, sp as i32), sp + 1, m.insert(sp, v)),
{
    let venv2 = venv.insert(x, v);
    let env2 = env.insert(x, sp as i32);
    let m2 = m.insert(sp, v);
    assert forall|y: Seq<char>| #[trigger] env2.dom().contains(y) implies venv2.dom().contains(y)
        && env2[y] < sp + 1 && m2.dom().contains(env2[y] as int) && m2[env2[y] as int] == venv2[y] by {
        if y != x {
            assert(env.dom().contains(y));
        }
    }
}

/// The code of a closed plain expression, compiled from slot 2 on (slot 1
/// holds the input), is the text of its code in the assembly model, and
/// running that code with the input in slot 1 gives what evaluating the
/// expression gives: its tagged value in `rax`, or a stop at the error
/// handler with the code of the first failed check.
pub proof fn lemma_closed_code_computes_value(e: Expr, count: int, input: int, rax: int, mem: Map<int, int>)
    requires
        plain(e),
        i32::MIN <= count,
        vars(e) + 2 < i32::MAX,
        compile_spec(e, Map::empty(), 2, count, "time_to_exit"@) is Some,
        mem.dom().contains(1),
        mem[1] == input,
    ensures
        compile_spec(e, Map::empty(), 2, count, "time_to_exit"@)->Some_0.0 == asm_text(
            asm_of(e, Map::empty(), 2, count),
        ),
        computes(asm_of(e, Map::empty(), 2, count), (rax, mem), outcome(e, Map::empty(), input)),
{
    lemma_code_is_asm(e, Map::empty(), 2, count, "time_to_exit"@);
    lemma_code_computes_value(e, Map::empty(), Map::empty(), 2, count, "time_to_exit"@, input, rax, mem);
}

} // verus!
