//! A model of the assembly that the compilers of the second and third stages
//! write: single instructions on `rax` and the stack slots `[rsp - 8*k]`,
//! sequences of them, and the conditional `cmp rax, t / je ELSE / then /
//! jmp EXIT / ELSE: else / EXIT:`; each with its text, as the compilers
//! indent it, and with what running it does.
use vstd::prelude::*;
use crate::lines::spaces;
use crate::text::{int_text, nat_text};

verus! {

/// An instruction on `rax` and the stack slots: slot `k` is `[rsp - 8*k]`,
/// or `[rbp - 8*k]` for the frame instructions of the current stage.
pub enum Op {
    Blank,
    MovImm(i32),
    AddImm(i32),
    SubImm(i32),
    Negate,
    Load(usize),
    LoadInput,
    Store(usize),
    AddMem(usize),
    LoadFrame(i32),
    StoreFrame(usize),
    LoadFrameInput,
    AddFrame(usize),
    StoreScaled(usize),
    HalveRax,
    MulScaled(usize),
}

/// Code: an indented instruction, two codes one line after the other, a
/// code whose first line is indented further, a conditional (the code of
/// its condition, the value that the condition is compared with, the label
/// number, and the codes of its branches), the check that `rax` holds a
/// number (indentation, mask of the tag bits, error code), or the
/// comparison of `rax` with a slot (whether the slot is of the frame, the
/// slot, label number, the values of false and true).
pub enum Asm {
    Line(usize, Op),
    Cat(Box<Asm>, Box<Asm>),
    Indent(usize, Box<Asm>),
    Branch(Box<Asm>, i32, i32, Box<Asm>, Box<Asm>),
    Check(usize, i32, i32),
    Compare(bool, usize, i32, i32, i32),
}

/// The text of an instruction.
pub open spec fn op_text(op: Op) -> Seq<char> {
    match op {
        Op::Blank => Seq::empty(),
        Op::MovImm(n) => "mov rax, "@ + int_text(n as int),
        Op::AddImm(n) => "add rax, "@ + int_text(n as int),
        Op::SubImm(n) => "sub rax, "@ + int_text(n as int),
        Op::Negate => "neg rax"@,
        Op::Load(k) => "mov rax, [rsp - 8*"@ + nat_text(k as nat) + "]"@,
        Op::LoadInput => "mov rax, [rsp - 8]"@,
        Op::Store(k) => "mov [rsp - 8*"@ + nat_text(k as nat) + "], rax"@,
        Op::AddMem(k) => "add rax, [rsp - 8*"@ + nat_text(k as nat) + "]"@,
        Op::LoadFrame(k) => "mov rax, [rbp - 8*"@ + int_text(k as int) + "]"@,
        Op::StoreFrame(k) => "mov [rbp - 8*"@ + nat_text(k as nat) + "], rax"@,
        Op::LoadFrameInput => "mov rax, [rbp - 8]"@,
        Op::AddFrame(k) => "add rax, [rbp - 8*"@ + nat_text(k as nat) + "]"@,
        Op::StoreScaled(k) => "mov [rbp - "@ + nat_text((8 * k) as nat) + "], rax"@,
        Op::HalveRax => "sar rax, 1"@,
        Op::MulScaled(k) => "imul rax, [rbp - "@ + nat_text((8 * k) as nat) + "]"@,
    }
}

/// The text of a conditional: the code of its condition, then the compare
/// with `t` and the jump to `label_else_k` when equal, the then code, the
/// jump to `label_exit_k`, the else label and code, and the exit label.
#[verifier::opaque]
pub open spec fn branch_text(c: Seq<char>, t: i32, k: i32, x: Seq<char>, y: Seq<char>) -> Seq<char> {
    c + "\n                      cmp rax, "@ + int_text(t as int) + "\n                      je label_else_"@
        + int_text(k as int) + "\n                      "@ + x + "\n                      jmp label_exit_"@
        + int_text(k as int) + "\n                    label_else_"@ + int_text(k as int)
        + ":\n                      "@ + y + "\n                    label_exit_"@ + int_text(k as int)
        + ":"@
}

/// The text of the check that `rax` holds a number: its tag bits `m` are
/// clear, or the code stops at `label_error` with error code `c`.
#[verifier::opaque]
pub open spec fn check_text(n: usize, m: i32, c: i32) -> Seq<char> {
    spaces(n as nat) + ("mov rcx, rax\n             and rcx, "@ + nat_text(m as nat)
        + "\n             cmp rcx, 0\n             mov rdi, "@ + nat_text(c as nat)
        + "\n             jne label_error"@)
}

/// The text of the comparison of `rax` with slot `k` (of the frame, at
/// `rbp`, or of the stack, at `rsp`): `rax` becomes `t` when they are equal
/// and `f` otherwise, with exit label `eq_exit_l`.
#[verifier::opaque]
pub open spec fn compare_text(frame: bool, k: usize, l: i32, f: i32, t: i32) -> Seq<char> {
    (if frame {
        "                 cmp rax, [rbp - 8*"@
    } else {
        "                 cmp rax, [rsp - 8*"@
    }) + nat_text(k as nat) + "]\n                 mov rax, "@
        + nat_text(f as nat) + "\n                 jne "@ + ("eq_exit"@ + "_"@ + int_text(l as int))
        + "\n                 mov rax, "@ + nat_text(t as nat) + "\n               "@ + ("eq_exit"@
        + "_"@ + int_text(l as int)) + ":\n                "@
}

/// The text of code, lines joined by newlines, with the indentation that
/// the compilers write; a conditional with label number `k` runs its
/// condition, compares `rax` with `t` and jumps to `label_else_k` when they
/// are equal, else runs its then code and jumps to `label_exit_k`.
pub open spec fn asm_text(a: Asm) -> Seq<char>
    decreases a,
{
    match a {
        Asm::Line(n, op) => spaces(n as nat) + op_text(op),
        Asm::Cat(x, y) => asm_text(*x) + "\n"@ + asm_text(*y),
        Asm::Indent(n, x) => spaces(n as nat) + asm_text(*x),
        Asm::Branch(c, t, k, x, y) => branch_text(asm_text(*c), t, k, asm_text(*x), asm_text(*y)),
        Asm::Check(n, m, c) => check_text(n, m, c),
        Asm::Compare(fr, k, l, f, t) => compare_text(fr, k, l, f, t),
    }
}

/// A value of 64-bit two's-complement arithmetic.
pub open spec fn wrap64(x: int) -> int {
    (x as i64) as int
}

/// The effect of an instruction on `rax` and the slots (the input is in
/// slot 1, `[rsp - 8]`).
pub open spec fn op_step(op: Op, st: (int, Map<int, int>)) -> (int, Map<int, int>) {
    let (rax, mem) = st;
    match op {
        Op::Blank => (rax, mem),
        Op::MovImm(n) => (n as int, mem),
        Op::AddImm(n) => (wrap64(rax + n), mem),
        Op::SubImm(n) => (wrap64(rax - n), mem),
        Op::Negate => (wrap64(-rax), mem),
        Op::Load(k) => (mem[k as int], mem),
        Op::LoadInput => (mem[1], mem),
        Op::Store(k) => (rax, mem.insert(k as int, rax)),
        Op::AddMem(k) => (wrap64(rax + mem[k as int]), mem),
        Op::LoadFrame(k) => (mem[k as int], mem),
        Op::StoreFrame(k) => (rax, mem.insert(k as int, rax)),
        Op::LoadFrameInput => (mem[1], mem),
        Op::AddFrame(k) => (wrap64(rax + mem[k as int]), mem),
        Op::StoreScaled(k) => (rax, mem.insert(k as int, rax)),
        Op::HalveRax => (rax / 2, mem),
        Op::MulScaled(k) => (wrap64(rax * mem[k as int]), mem),
    }
}

/// What running code does: instructions one after the other; the
/// conditional runs its condition, then its else code when `rax` equals the
/// compared value and its then code otherwise.
pub open spec fn asm_run(a: Asm, st: (int, Map<int, int>)) -> (int, Map<int, int>)
    decreases a,
{
    match a {
        Asm::Line(_, op) => op_step(op, st),
        Asm::Cat(x, y) => asm_run(*y, asm_run(*x, st)),
        Asm::Indent(_, x) => asm_run(*x, st),
        Asm::Branch(c, t, _, x, y) => {
            let s1 = asm_run(*c, st);
            if s1.0 == t as int {
                asm_run(*y, s1)
            } else {
                asm_run(*x, s1)
            }
        },
        Asm::Check(_, _, _) => st,
        Asm::Compare(_, k, _, f, t) => if st.0 == st.1[k as int] {
            (t as int, st.1)
        } else {
            (f as int, st.1)
        },
    }
}

/// The error code with which running code stops, if it does: the first
/// check of a number that fails, where `rax` has a tag bit of the mask set
/// (`rax & m != 0`, for a mask `m` of the low bits: `rax % (m + 1) != 0`).
pub open spec fn asm_fault(a: Asm, st: (int, Map<int, int>)) -> Option<int>
    decreases a,
{
    match a {
        Asm::Line(_, _) | Asm::Compare(_, _, _, _, _) => None,
        Asm::Cat(x, y) => match asm_fault(*x, st) {
            Some(c) => Some(c),
            None => asm_fault(*y, asm_run(*x, st)),
        },
        Asm::Indent(_, x) => asm_fault(*x, st),
        Asm::Branch(c, t, _, x, y) => match asm_fault(*c, st) {
            Some(code) => Some(code),
            None => {
                let s1 = asm_run(*c, st);
                if s1.0 == t as int {
                    asm_fault(*y, s1)
                } else {
                    asm_fault(*x, s1)
                }
            },
        },
        Asm::Check(_, m, c) => if st.0 % (m + 1) != 0 {
            Some(c as int)
        } else {
            None
        },
    }
}

/// Two codes one line after the other.
pub open spec fn cat(x: Asm, y: Asm) -> Asm {
    Asm::Cat(Box::new(x), Box::new(y))
}

/// The slots below `sp` hold the values of the variables of `env`.
pub open spec fn frame_holds(
    venv: Map<Seq<char>, int>,
    env: Map<Seq<char>, usize>,
    sp: int,
    mem: Map<int, int>,
) -> bool {
    forall|x: Seq<char>|
        #![trigger env.dom().contains(x)]
        env.dom().contains(x) ==> venv.dom().contains(x) && env[x] < sp && mem.dom().contains(
            env[x] as int,
        ) && mem[env[x] as int] == venv[x]
}

/// Whether every slot below `sp` of `mem` is still in `mem2` with the same
/// word.
pub open spec fn keeps_below(mem: Map<int, int>, mem2: Map<int, int>, sp: int) -> bool {
    forall|k: int|
        k < sp && #[trigger] mem.dom().contains(k) ==> mem2.dom().contains(k) && mem2[k] == mem[k]
}

/// Running two codes one after the other.
pub proof fn lemma_run_cat(x: Asm, y: Asm, st: (int, Map<int, int>))
    ensures
        asm_run(cat(x, y), st) == asm_run(y, asm_run(x, st)),
{
}

/// Keeping the slots below `sp` composes.
pub proof fn lemma_keeps_trans(m1: Map<int, int>, m2: Map<int, int>, m3: Map<int, int>, m4: Map<int, int>, sp: int)
    requires
        keeps_below(m1, m2, sp),
        keeps_below(m2, m3, sp) || m3 == m2,
        keeps_below(m3, m4, sp + 1) || keeps_below(m3, m4, sp),
    ensures
        keeps_below(m1, m4, sp),
{
}

/// A frame that keeps the slots below `sp` keeps the variables' values.
pub proof fn lemma_frame_keep(venv: Map<Seq<char>, int>, env: Map<Seq<char>, usize>, sp: int, m1: Map<int, int>, m2: Map<int, int>)
    requires
        frame_holds(venv, env, sp, m1),
        keeps_below(m1, m2, sp),
    ensures
        frame_holds(venv, env, sp, m2),
{
}

/// Storing in slot `sp` keeps the variables below it.
pub proof fn lemma_frame_store(venv: Map<Seq<char>, int>, env: Map<Seq<char>, usize>, sp: int, m: Map<int, int>, v: int)
    requires
        frame_holds(venv, env, sp, m),
    ensures
        frame_holds(venv, env, sp + 1, m.insert(sp, v)),
{
}

/// Storing the value of a new variable in slot `sp` binds it there.
pub proof fn lemma_frame_extend(venv: Map<Seq<char>, int>, env: Map<Seq<char>, usize>, sp: int, m: Map<int, int>, x: Seq<char>, v: int)
    requires
        frame_holds(venv, env, sp, m),
        0 <= sp <= usize::MAX,
    ensures
        frame_holds(venv.insert(x, v), env.insert(x, sp as usize), sp + 1, m.insert(sp, v)),
{
    let venv2 = venv.insert(x, v);
    let env2 = env.insert(x, sp as usize);
    let m2 = m.insert(sp, v);
    assert forall|y: Seq<char>| #[trigger] env2.dom().contains(y) implies venv2.dom().contains(y)
        && env2[y] < sp + 1 && m2.dom().contains(env2[y] as int) && m2[env2[y] as int] == venv2[y] by {
        if y != x {
            assert(env.dom().contains(y));
        }
    }
}

/// An instruction that is not indented is its own text.
pub proof fn lemma_line_text(op: Op)
    ensures
        asm_text(Asm::Line(0, op)) == op_text(op),
{
    assert(spaces(0) =~= Seq::<char>::empty());
    assert(asm_text(Asm::Line(0, op)) =~= op_text(op));
}

/// The text of a code followed by one instruction.
pub proof fn lemma_unary_text(x: Asm, op: Op, lit: Seq<char>)
    requires
        lit == "\n"@ + op_text(op),
    ensures
        asm_text(cat(x, Asm::Line(0, op))) == asm_text(x) + lit,
{
    lemma_line_text(op);
    assert(asm_text(x) + "\n"@ + op_text(op) =~= asm_text(x) + lit);
}

/// The text of a code, a store in slot `sp`, and a second code.
pub proof fn lemma_let_text(x: Asm, y: Asm, sp: int)
    requires
        0 <= sp <= usize::MAX,
    ensures
        asm_text(cat(cat(x, Asm::Line(0, Op::Store(sp as usize))), y)) == asm_text(x) + "\n"@ + (
        "mov [rsp - 8*"@ + nat_text(sp as nat) + "], rax"@) + "\n"@ + asm_text(y),
{
    lemma_line_text(Op::Store(sp as usize));
    let i = cat(x, Asm::Line(0, Op::Store(sp as usize)));
    assert(asm_text(i) == asm_text(x) + "\n"@ + op_text(Op::Store(sp as usize)));
}

/// The text of a conditional, with the compare-and-jump line `lit` that
/// compares with `t`.
#[verifier::spinoff_prover]
pub proof fn lemma_if_text(c: Asm, t: i32, x: Asm, y: Asm, k3: int, lit: Seq<char>)
    requires
        i32::MIN <= k3 <= i32::MAX,
        lit == "\n                      cmp rax, "@ + int_text(t as int) + "\n                      je label_else_"@,
    ensures
        asm_text(Asm::Branch(Box::new(c), t, k3 as i32, Box::new(x), Box::new(y))) == asm_text(c)
            + lit + int_text(k3) + "\n                      "@ + asm_text(x)
            + "\n                      jmp label_exit_"@ + int_text(k3) + "\n                    label_else_"@
            + int_text(k3) + ":\n                      "@ + asm_text(y) + "\n                    label_exit_"@
            + int_text(k3) + ":"@,
{
    reveal(branch_text);
    let p1 = asm_text(c) + "\n                      cmp rax, "@ + int_text(t as int)
        + "\n                      je label_else_"@;
    assert(p1 =~= asm_text(c) + lit);
}

/// The text of a code, one instruction, and a second code.
pub proof fn lemma_around_text(x: Asm, op: Op, y: Asm)
    ensures
        asm_text(cat(cat(x, Asm::Line(0, op)), y)) == asm_text(x) + "\n"@ + op_text(op) + "\n"@
            + asm_text(y),
{
    lemma_line_text(op);
    let i = cat(x, Asm::Line(0, op));
    assert(asm_text(i) == asm_text(x) + "\n"@ + op_text(op));
}

/// Running two codes one after the other, and where it stops.
pub proof fn lemma_cat_step(x: Asm, y: Asm, st: (int, Map<int, int>))
    ensures
        asm_run(cat(x, y), st) == asm_run(y, asm_run(x, st)),
        asm_fault(cat(x, y), st) == if asm_fault(x, st) is Some {
            asm_fault(x, st)
        } else {
            asm_fault(y, asm_run(x, st))
        },
{
}

} // verus!
