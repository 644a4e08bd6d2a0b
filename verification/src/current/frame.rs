//! The stack frame of the current stage: the prologue that `compile_entry`
//! writes and the epilogue that `compile_exit` writes, read as instructions
//! on `rsp`, `rbp` and memory.
use vstd::prelude::*;
use crate::text::nat_text;
use super::compiler::{entry_text, exit_text};

verus! {

/// An instruction of the prologue or the epilogue of a frame.
pub enum FrameOp {
    PushRbp,
    MovRbpRsp,
    SubRsp(usize),
    MovRspRbp,
    PopRbp,
    Ret,
}

/// The line of assembly text of a frame instruction.
pub open spec fn frame_line(op: FrameOp) -> Seq<char> {
    match op {
        FrameOp::PushRbp => "push rbp"@,
        FrameOp::MovRbpRsp => "mov rbp, rsp"@,
        FrameOp::SubRsp(n) => "sub rsp, 8*"@ + nat_text(n as nat),
        FrameOp::MovRspRbp => "mov rsp, rbp"@,
        FrameOp::PopRbp => "pop rbp"@,
        FrameOp::Ret => "ret"@,
    }
}

/// The lines of frame instructions, joined by a newline and the indentation
/// that the compiler writes.
pub open spec fn frame_text(ops: Seq<FrameOp>) -> Seq<char>
    decreases ops.len(),
{
    if ops.len() == 0 {
        Seq::empty()
    } else if ops.len() == 1 {
        frame_line(ops[0])
    } else {
        frame_text(ops.drop_last()) + "\n             "@ + frame_line(ops.last())
    }
}

/// The prologue of a frame of `n` slots.
pub open spec fn entry_ops(n: usize) -> Seq<FrameOp> {
    seq![FrameOp::PushRbp, FrameOp::MovRbpRsp, FrameOp::SubRsp(n)]
}

/// The epilogue of a frame.
pub open spec fn exit_ops() -> Seq<FrameOp> {
    seq![FrameOp::MovRspRbp, FrameOp::PopRbp, FrameOp::Ret]
}

/// A machine state: `rsp`, `rbp` and the words of memory by address.
pub type FrameState = (int, int, Map<int, int>);

/// The effect of one frame instruction; `ret` pops the return address.
pub open spec fn frame_step(op: FrameOp, st: FrameState) -> FrameState {
    let (rsp, rbp, mem) = st;
    match op {
        FrameOp::PushRbp => (rsp - 8, rbp, mem.insert(rsp - 8, rbp)),
        FrameOp::MovRbpRsp => (rsp, rsp, mem),
        FrameOp::SubRsp(n) => (rsp - 8 * n, rbp, mem),
        FrameOp::MovRspRbp => (rbp, rbp, mem),
        FrameOp::PopRbp => (rsp + 8, mem[rsp], mem),
        FrameOp::Ret => (rsp + 8, rbp, mem),
    }
}

/// The effect of frame instructions run in order.
pub open spec fn frame_run(ops: Seq<FrameOp>, st: FrameState) -> FrameState
    decreases ops.len(),
{
    if ops.len() == 0 {
        st
    } else {
        frame_run(ops.drop_first(), frame_step(ops[0], st))
    }
}

/// The prologue and the epilogue are the texts that the compiler writes.
pub proof fn lemma_frame_texts(n: usize)
    ensures
        entry_text(n as int) == frame_text(entry_ops(n)),
        exit_text() == frame_text(exit_ops()),
{
    reveal_strlit("push rbp");
    reveal_strlit("mov rbp, rsp");
    reveal_strlit("sub rsp, 8*");
    reveal_strlit("mov rsp, rbp");
    reveal_strlit("pop rbp");
    reveal_strlit("ret");
    reveal_strlit("\n             ");
    reveal_strlit("push rbp\n             mov rbp, rsp\n             sub rsp, 8*");
    reveal_strlit("mov rsp, rbp\n             pop rbp\n             ret");
    let en = entry_ops(n);
    assert(en.drop_last().drop_last() =~= seq![FrameOp::PushRbp]);
    assert(en.drop_last() =~= seq![FrameOp::PushRbp, FrameOp::MovRbpRsp]);
    assert(frame_text(en.drop_last().drop_last()) == "push rbp"@);
    assert(frame_text(en.drop_last()) =~= "push rbp"@ + "\n             "@ + "mov rbp, rsp"@);
    assert(frame_text(en) =~= "push rbp"@ + "\n             "@ + "mov rbp, rsp"@
        + "\n             "@ + ("sub rsp, 8*"@ + nat_text(n as nat)));
    assert(entry_text(n as int) =~= frame_text(en));
    let ex = exit_ops();
    assert(ex.drop_last().drop_last() =~= seq![FrameOp::MovRspRbp]);
    assert(ex.drop_last() =~= seq![FrameOp::MovRspRbp, FrameOp::PopRbp]);
    assert(frame_text(ex.drop_last().drop_last()) == "mov rsp, rbp"@);
    assert(frame_text(ex.drop_last()) =~= "mov rsp, rbp"@ + "\n             "@ + "pop rbp"@);
    assert(frame_text(ex) =~= "mov rsp, rbp"@ + "\n             "@ + "pop rbp"@
        + "\n             "@ + "ret"@);
    assert(exit_text() =~= frame_text(ex));
}

/// The epilogue undoes the prologue: entered with `rsp == s` and
/// `rbp == b`, the prologue saves `b` below `s` and points `rbp` at it;
/// whatever the code of the frame does next, provided it leaves `rbp` and
/// the saved word in place, the epilogue restores `rsp == s` and `rbp == b`
/// before `ret`, which then pops the caller's return address at `s`.
pub proof fn lemma_exit_undoes_entry(n: usize, s: int, b: int, mem: Map<int, int>, mid: FrameState)
    requires
        mid.1 == frame_run(entry_ops(n), (s, b, mem)).1,
        mid.2[mid.1] == b,
    ensures
        frame_run(entry_ops(n), (s, b, mem)) == (s - 8 - 8 * n, s - 8, mem.insert(s - 8, b)),
        frame_run(exit_ops().take(2), mid) == (s, b, mid.2),
        frame_run(exit_ops(), mid) == (s + 8, b, mid.2),
{
    let en = entry_ops(n);
    let st1 = frame_step(FrameOp::PushRbp, (s, b, mem));
    let st2 = frame_step(FrameOp::MovRbpRsp, st1);
    let st3 = frame_step(FrameOp::SubRsp(n), st2);
    assert(en.drop_first() =~= seq![FrameOp::MovRbpRsp, FrameOp::SubRsp(n)]);
    assert(en.drop_first().drop_first() =~= seq![FrameOp::SubRsp(n)]);
    assert(en.drop_first().drop_first().drop_first() =~= Seq::<FrameOp>::empty());
    assert(frame_run(en.drop_first().drop_first().drop_first(), st3) == st3);
    assert(frame_run(en.drop_first().drop_first(), st2) == st3);
    assert(frame_run(en.drop_first(), st1) == st3);
    assert(frame_run(en, (s, b, mem)) == st3);
    let ex = exit_ops();
    let m1 = frame_step(FrameOp::MovRspRbp, mid);
    let m2 = frame_step(FrameOp::PopRbp, m1);
    let m3 = frame_step(FrameOp::Ret, m2);
    assert(ex.take(2).drop_first() =~= seq![FrameOp::PopRbp]);
    assert(ex.take(2).drop_first().drop_first() =~= Seq::<FrameOp>::empty());
    assert(frame_run(ex.take(2).drop_first().drop_first(), m2) == m2);
    assert(frame_run(ex.take(2).drop_first(), m1) == m2);
    assert(frame_run(ex.take(2), mid) == m2);
    assert(ex.drop_first() =~= seq![FrameOp::PopRbp, FrameOp::Ret]);
    assert(ex.drop_first().drop_first() =~= seq![FrameOp::Ret]);
    assert(ex.drop_first().drop_first().drop_first() =~= Seq::<FrameOp>::empty());
    assert(frame_run(ex.drop_first().drop_first().drop_first(), m3) == m3);
    assert(frame_run(ex.drop_first().drop_first(), m2) == m3);
    assert(frame_run(ex.drop_first(), m1) == m3);
    assert(frame_run(ex, mid) == m3);
}

/// Pushing a word: `rsp` moves down one word and the word is written there.
pub open spec fn push_word(st: FrameState, w: int) -> FrameState {
    (st.0 - 8, st.1, st.2.insert(st.0 - 8, w))
}

/// The calling convention: a caller that pushes the second argument, then
/// the first, then the return address (`call`), and a callee that runs its
/// prologue, leave the first argument at `[rbp - 8*-2]` and the second at
/// `[rbp - 8*-3]`: the slots -2 and -3 that the parameters are bound to.
pub proof fn lemma_arguments_in_parameter_slots(
    n: usize,
    s: int,
    b: int,
    mem: Map<int, int>,
    first: int,
    second: int,
    ret: int,
)
    ensures
        ({
            let called = push_word(push_word(push_word((s, b, mem), second), first), ret);
            let st = frame_run(entry_ops(n), called);
            &&& st.2[st.1 - 8 * (-2)] == first
            &&& st.2[st.1 - 8 * (-3)] == second
            &&& st.2[st.1 + 8] == ret
        }),
{
    let called = push_word(push_word(push_word((s, b, mem), second), first), ret);
    lemma_entry_state(n, called.0, called.1, called.2);
}

/// The prologue saves `rbp` below `rsp`, points `rbp` at it and reserves
/// `n` words below.
proof fn lemma_entry_state(n: usize, s: int, b: int, mem: Map<int, int>)
    ensures
        frame_run(entry_ops(n), (s, b, mem)) == (s - 8 - 8 * n, s - 8, mem.insert(s - 8, b)),
{
    let en = entry_ops(n);
    let st1 = frame_step(FrameOp::PushRbp, (s, b, mem));
    let st2 = frame_step(FrameOp::MovRbpRsp, st1);
    let st3 = frame_step(FrameOp::SubRsp(n), st2);
    assert(en.drop_first() =~= seq![FrameOp::MovRbpRsp, FrameOp::SubRsp(n)]);
    assert(en.drop_first().drop_first() =~= seq![FrameOp::SubRsp(n)]);
    assert(en.drop_first().drop_first().drop_first() =~= Seq::<FrameOp>::empty());
    assert(frame_run(en.drop_first().drop_first().drop_first(), st3) == st3);
    assert(frame_run(en.drop_first().drop_first(), st2) == st3);
    assert(frame_run(en.drop_first(), st1) == st3);
}

} // verus!
