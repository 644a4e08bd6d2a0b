//! What the code of the second stage computes: the text that `compile_expr`
//! writes is a list of instructions, one per line, and running those
//! instructions leaves in `rax` the value that `eval` gives.
use vstd::prelude::*;
use crate::text::{int_text, join_lines, nat_text};
use super::compiler::{compile_spec, eval_spec, lemma_eval_laws, program_text, source_spec};
use super::expr::{lemma_form_readings, parse_spec};
use crate::sexpr::{is_symbol, sexp_parse, Sexpr};
use super::expr::Expr;

verus! {

/// An instruction of the code of the second stage; slot `k` is the word at
/// `[rsp - 8*k]`.
pub enum Instr {
    Blank,
    MovImm(i32),
    AddOne,
    SubOne,
    Negate,
    Load(usize),
    Store(usize),
    AddMem(usize),
}

/// The line of assembly text of an instruction.
pub open spec fn line(i: Instr) -> Seq<char> {
    match i {
        Instr::Blank => Seq::empty(),
        Instr::MovImm(n) => "mov rax, "@ + int_text(n as int),
        Instr::AddOne => "add rax, 1"@,
        Instr::SubOne => "sub rax, 1"@,
        Instr::Negate => "neg rax"@,
        Instr::Load(k) => "mov rax, [rsp - 8*"@ + nat_text(k as nat) + "]"@,
        Instr::Store(k) => "mov [rsp - 8*"@ + nat_text(k as nat) + "], rax"@,
        Instr::AddMem(k) => "add rax, [rsp - 8*"@ + nat_text(k as nat) + "]"@,
    }
}

/// The text of a list of instructions: their lines joined by newlines.
pub open spec fn render(is: Seq<Instr>) -> Seq<char> {
    join_lines(is.map_values(|i: Instr| line(i)))
}

/// The instructions of the code of `e` with variables at the slots of `env`
/// and the next free slot `si`.
pub open spec fn instrs(e: Expr, env: Map<Seq<char>, usize>, si: int) -> Seq<Instr>
    decreases e,
{
    match e {
        Expr::Num(n) => seq![Instr::MovImm(n)],
        Expr::Add1(a) => instrs(*a, env, si).push(Instr::AddOne),
        Expr::Sub1(a) => instrs(*a, env, si).push(Instr::SubOne),
        Expr::Neg(a) => instrs(*a, env, si).push(Instr::Negate),
        Expr::Var(x) => seq![Instr::Load(env[x@])],
        Expr::Let(x, a, b) => instrs(*a, env, si).push(Instr::Store(si as usize)) + instrs(
            *b,
            env.insert(x@, si as usize),
            si + 1,
        ),
        Expr::Plus(a, b) => seq![Instr::Blank] + instrs(*a, env, si).push(Instr::Store(si as usize))
            + instrs(*b, env, si + 1).push(Instr::AddMem(si as usize)),
    }
}

/// A value of 64-bit two's-complement arithmetic.
pub open spec fn wrap64(x: int) -> int {
    (x as i64) as int
}

/// The effect of one instruction on `rax` and the stack slots.
pub open spec fn step(i: Instr, st: (int, Map<int, int>)) -> (int, Map<int, int>) {
    let (rax, mem) = st;
    match i {
        Instr::Blank => (rax, mem),
        Instr::MovImm(n) => (n as int, mem),
        Instr::AddOne => (wrap64(rax + 1), mem),
        Instr::SubOne => (wrap64(rax - 1), mem),
        Instr::Negate => (wrap64(-rax), mem),
        Instr::Load(k) => (mem[k as int], mem),
        Instr::Store(k) => (rax, mem.insert(k as int, rax)),
        Instr::AddMem(k) => (wrap64(rax + mem[k as int]), mem),
    }
}

/// The effect of a list of instructions, run in order.
pub open spec fn run(is: Seq<Instr>, st: (int, Map<int, int>)) -> (int, Map<int, int>)
    decreases is.len(),
{
    if is.len() == 0 {
        st
    } else {
        run(is.drop_first(), step(is[0], st))
    }
}

proof fn lemma_run_append(a: Seq<Instr>, b: Seq<Instr>, st: (int, Map<int, int>))
    ensures
        run(a + b, st) == run(b, run(a, st)),
    decreases a.len(),
{
    if a.len() == 0 {
        assert(a + b =~= b);
    } else {
        assert((a + b).drop_first() =~= a.drop_first() + b);
        assert((a + b)[0] == a[0]);
        lemma_run_append(a.drop_first(), b, step(a[0], st));
    }
}

proof fn lemma_run_one(i: Instr, st: (int, Map<int, int>))
    ensures
        run(seq![i], st) == step(i, st),
{
    assert(seq![i].drop_first() =~= Seq::<Instr>::empty());
    assert(run(Seq::<Instr>::empty(), step(i, st)) == step(i, st));
}

proof fn lemma_join_append(a: Seq<Seq<char>>, b: Seq<Seq<char>>)
    requires
        a.len() > 0,
        b.len() > 0,
    ensures
        join_lines(a + b) == join_lines(a) + "\n"@ + join_lines(b),
    decreases b.len(),
{
    if b.len() == 1 {
        assert((a + b).drop_last() =~= a);
    } else {
        assert((a + b).drop_last() =~= a + b.drop_last());
        lemma_join_append(a, b.drop_last());
        assert(join_lines(a + b) =~= join_lines(a) + "\n"@ + join_lines(b));
    }
}

proof fn lemma_render_append(a: Seq<Instr>, b: Seq<Instr>)
    requires
        a.len() > 0,
        b.len() > 0,
    ensures
        render(a + b) == render(a) + "\n"@ + render(b),
{
    let f = |i: Instr| line(i);
    assert((a + b).map_values(f) =~= a.map_values(f) + b.map_values(f));
    lemma_join_append(a.map_values(f), b.map_values(f));
}

proof fn lemma_render_one(i: Instr)
    ensures
        render(seq![i]) == line(i),
{
    let f = |i: Instr| line(i);
    assert(seq![i].map_values(f) =~= seq![line(i)]);
}

proof fn lemma_render_push(a: Seq<Instr>, i: Instr)
    requires
        a.len() > 0,
    ensures
        render(a.push(i)) == render(a) + "\n"@ + line(i),
{
    assert(a.push(i) =~= a + seq![i]);
    lemma_render_append(a, seq![i]);
    lemma_render_one(i);
}

proof fn lemma_unary_text(c: Seq<char>, is: Seq<Instr>, i: Instr, lit: Seq<char>)
    requires
        is.len() > 0,
        c == render(is),
        lit == "\n"@ + line(i),
    ensures
        c + lit == render(is.push(i)),
{
    lemma_render_push(is, i);
    assert(c + lit =~= render(is.push(i)));
}

proof fn lemma_let_text(c1: Seq<char>, c2: Seq<char>, ia: Seq<Instr>, ib: Seq<Instr>, k: usize)
    requires
        ia.len() > 0,
        ib.len() > 0,
        c1 == render(ia),
        c2 == render(ib),
    ensures
        c1 + "\n"@ + ("mov [rsp - 8*"@ + nat_text(k as nat) + "], rax"@) + "\n"@ + c2 == render(
            ia.push(Instr::Store(k)) + ib,
        ),
{
    lemma_render_push(ia, Instr::Store(k));
    lemma_render_append(ia.push(Instr::Store(k)), ib);
    assert(c1 + "\n"@ + ("mov [rsp - 8*"@ + nat_text(k as nat) + "], rax"@) + "\n"@ + c2
        =~= render(ia.push(Instr::Store(k)) + ib));
}

proof fn lemma_plus_text(c1: Seq<char>, c2: Seq<char>, ia: Seq<Instr>, ib: Seq<Instr>, k: usize)
    requires
        ia.len() > 0,
        ib.len() > 0,
        c1 == render(ia),
        c2 == render(ib),
    ensures
        "\n"@ + c1 + "\nmov [rsp - 8*"@ + nat_text(k as nat) + "], rax\n"@ + c2
            + "\nadd rax, [rsp - 8*"@ + nat_text(k as nat) + "]"@ == render(
            seq![Instr::Blank] + ia.push(Instr::Store(k)) + ib.push(Instr::AddMem(k)),
        ),
{
    let sa = ia.push(Instr::Store(k));
    let sb = ib.push(Instr::AddMem(k));
    lemma_render_push(ia, Instr::Store(k));
    lemma_render_push(ib, Instr::AddMem(k));
    lemma_render_append(seq![Instr::Blank], sa);
    lemma_render_append(seq![Instr::Blank] + sa, sb);
    lemma_render_one(Instr::Blank);
    reveal_strlit("\n");
    reveal_strlit("\nmov [rsp - 8*");
    reveal_strlit("mov [rsp - 8*");
    reveal_strlit("], rax\n");
    reveal_strlit("], rax");
    reveal_strlit("\nadd rax, [rsp - 8*");
    reveal_strlit("add rax, [rsp - 8*");
    let n = nat_text(k as nat);
    let x1 = "\nmov [rsp - 8*"@;
    let x2 = "], rax\n"@;
    let x3 = "\nadd rax, [rsp - 8*"@;
    assert(x1 =~= "\n"@ + "mov [rsp - 8*"@);
    assert(x2 =~= "], rax"@ + "\n"@);
    assert(x3 =~= "\n"@ + "add rax, [rsp - 8*"@);
    assert("\n"@ + c1 + x1 + n + x2 + c2 + x3 + n + "]"@ =~= render(seq![Instr::Blank] + sa + sb));
}

/// The text that `compile_expr` writes for `e` is the rendering of the
/// instructions `instrs(e, env, si)`, one per line.
pub proof fn lemma_code_is_instructions(e: Expr, env: Map<Seq<char>, usize>, si: int)
    requires
        compile_spec(e, env, si) is Some,
        0 <= si,
    ensures
        instrs(e, env, si).len() > 0,
        compile_spec(e, env, si) == Some(render(instrs(e, env, si))),
    decreases e,
{
    match e {
        Expr::Num(n) => {
            lemma_render_one(Instr::MovImm(n));
        },
        Expr::Var(x) => {
            lemma_render_one(Instr::Load(env[x@]));
        },
        Expr::Add1(a) => {
            lemma_code_is_instructions(*a, env, si);
            reveal_strlit("\n");
            reveal_strlit("\nadd rax, 1");
            reveal_strlit("add rax, 1");
            assert("\nadd rax, 1"@ =~= "\n"@ + line(Instr::AddOne));
            lemma_unary_text(
                compile_spec(*a, env, si)->Some_0,
                instrs(*a, env, si),
                Instr::AddOne,
                "\nadd rax, 1"@,
            );
        },
        Expr::Sub1(a) => {
            lemma_code_is_instructions(*a, env, si);
            reveal_strlit("\n");
            reveal_strlit("\nsub rax, 1");
            reveal_strlit("sub rax, 1");
            assert("\nsub rax, 1"@ =~= "\n"@ + line(Instr::SubOne));
            lemma_unary_text(
                compile_spec(*a, env, si)->Some_0,
                instrs(*a, env, si),
                Instr::SubOne,
                "\nsub rax, 1"@,
            );
        },
        Expr::Neg(a) => {
            lemma_code_is_instructions(*a, env, si);
            reveal_strlit("\n");
            reveal_strlit("\nneg rax");
            reveal_strlit("neg rax");
            assert("\nneg rax"@ =~= "\n"@ + line(Instr::Negate));
            lemma_unary_text(
                compile_spec(*a, env, si)->Some_0,
                instrs(*a, env, si),
                Instr::Negate,
                "\nneg rax"@,
            );
        },
        Expr::Let(x, a, b) => {
            let env2 = env.insert(x@, si as usize);
            lemma_code_is_instructions(*a, env, si);
            lemma_code_is_instructions(*b, env2, si + 1);
            lemma_let_text(
                compile_spec(*a, env, si)->Some_0,
                compile_spec(*b, env2, si + 1)->Some_0,
                instrs(*a, env, si),
                instrs(*b, env2, si + 1),
                si as usize,
            );
        },
        Expr::Plus(a, b) => {
            lemma_code_is_instructions(*a, env, si);
            lemma_code_is_instructions(*b, env, si + 1);
            lemma_plus_text(
                compile_spec(*a, env, si)->Some_0,
                compile_spec(*b, env, si + 1)->Some_0,
                instrs(*a, env, si),
                instrs(*b, env, si + 1),
                si as usize,
            );
        },
    }
}

/// The stack slots below `si` hold the values of the variables of `venv`,
/// at the slots that `senv` gives them.
pub open spec fn frame_holds(
    venv: Map<Seq<char>, i32>,
    senv: Map<Seq<char>, usize>,
    si: int,
    mem: Map<int, int>,
) -> bool {
    forall|x: Seq<char>|
        #![trigger venv.dom().contains(x)]
        venv.dom().contains(x) ==> senv.dom().contains(x) && senv[x] < si && mem.dom().contains(
            senv[x] as int,
        ) && mem[senv[x] as int] == venv[x] as int
}

/// Running the code of `e` leaves the value of `e` in `rax` and keeps every
/// slot below `si`.
pub proof fn lemma_code_computes_value(
    e: Expr,
    venv: Map<Seq<char>, i32>,
    senv: Map<Seq<char>, usize>,
    si: int,
    rax: int,
    mem: Map<int, int>,
)
    requires
        eval_spec(e, venv) is Some,
        compile_spec(e, senv, si) is Some,
        0 <= si,
        frame_holds(venv, senv, si, mem),
    ensures
        run(instrs(e, senv, si), (rax, mem)).0 == eval_spec(e, venv)->Some_0 as int,
        forall|k: int|
            0 <= k < si && #[trigger] mem.dom().contains(k) ==> run(
                instrs(e, senv, si),
                (rax, mem),
            ).1.dom().contains(k) && run(instrs(e, senv, si), (rax, mem)).1[k] == mem[k],
    decreases e,
{
    match e {
        Expr::Num(n) => {
            lemma_run_one(Instr::MovImm(n), (rax, mem));
        },
        Expr::Var(x) => {
            assert(venv.dom().contains(x@));
            lemma_run_one(Instr::Load(senv[x@]), (rax, mem));
        },
        Expr::Add1(a) => {
            lemma_code_computes_value(*a, venv, senv, si, rax, mem);
            let st = run(instrs(*a, senv, si), (rax, mem));
            lemma_run_append(instrs(*a, senv, si), seq![Instr::AddOne], (rax, mem));
            assert(instrs(*a, senv, si).push(Instr::AddOne) =~= instrs(*a, senv, si) + seq![
                Instr::AddOne,
            ]);
            lemma_run_one(Instr::AddOne, st);
        },
        Expr::Sub1(a) => {
            lemma_code_computes_value(*a, venv, senv, si, rax, mem);
            let st = run(instrs(*a, senv, si), (rax, mem));
            lemma_run_append(instrs(*a, senv, si), seq![Instr::SubOne], (rax, mem));
            assert(instrs(*a, senv, si).push(Instr::SubOne) =~= instrs(*a, senv, si) + seq![
                Instr::SubOne,
            ]);
            lemma_run_one(Instr::SubOne, st);
        },
        Expr::Neg(a) => {
            lemma_code_computes_value(*a, venv, senv, si, rax, mem);
            let st = run(instrs(*a, senv, si), (rax, mem));
            lemma_run_append(instrs(*a, senv, si), seq![Instr::Negate], (rax, mem));
            assert(instrs(*a, senv, si).push(Instr::Negate) =~= instrs(*a, senv, si) + seq![
                Instr::Negate,
            ]);
            lemma_run_one(Instr::Negate, st);
        },
        Expr::Let(x, a, b) => {
            let ia = instrs(*a, senv, si);
            let st1 = run(ia, (rax, mem));
            lemma_code_computes_value(*a, venv, senv, si, rax, mem);
            let v1 = eval_spec(*a, venv)->Some_0;
            let store = Instr::Store(si as usize);
            lemma_run_one(store, st1);
            let mem2 = st1.1.insert(si, st1.0);
            let venv2 = venv.insert(x@, v1);
            let senv2 = senv.insert(x@, si as usize);
            assert forall|y: Seq<char>| #[trigger] venv2.dom().contains(y) implies senv2.dom().contains(
                y,
            ) && senv2[y] < si + 1 && mem2.dom().contains(senv2[y] as int) && mem2[senv2[y] as int]
                == venv2[y] as int by {
                if y != x@ {
                    assert(venv.dom().contains(y));
                }
            }
            let ib = instrs(*b, senv2, si + 1);
            lemma_code_computes_value(*b, venv2, senv2, si + 1, st1.0, mem2);
            lemma_run_append(ia, seq![store], (rax, mem));
            assert(ia.push(store) =~= ia + seq![store]);
            lemma_run_append(ia.push(store), ib, (rax, mem));
            let fin = run(instrs(e, senv, si), (rax, mem));
            assert forall|k: int| 0 <= k < si && #[trigger] mem.dom().contains(k) implies fin.1.dom().contains(
                k,
            ) && fin.1[k] == mem[k] by {
                assert(mem2.dom().contains(k));
            }
        },
        Expr::Plus(a, b) => {
            let blank = seq![Instr::Blank];
            lemma_run_one(Instr::Blank, (rax, mem));
            let ia = instrs(*a, senv, si);
            lemma_code_computes_value(*a, venv, senv, si, rax, mem);
            let st1 = run(ia, (rax, mem));
            let store = Instr::Store(si as usize);
            lemma_run_one(store, st1);
            let mem2 = st1.1.insert(si, st1.0);
            assert forall|y: Seq<char>| #[trigger] venv.dom().contains(y) implies senv.dom().contains(
                y,
            ) && senv[y] < si + 1 && mem2.dom().contains(senv[y] as int) && mem2[senv[y] as int]
                == venv[y] as int by {}
            let ib = instrs(*b, senv, si + 1);
            lemma_code_computes_value(*b, venv, senv, si + 1, st1.0, mem2);
            let st2 = run(ib, (st1.0, mem2));
            let add = Instr::AddMem(si as usize);
            lemma_run_one(add, st2);
            assert(mem2.dom().contains(si));
            assert(st2.1.dom().contains(si));
            lemma_run_append(ia, seq![store], (rax, mem));
            assert(ia.push(store) =~= ia + seq![store]);
            lemma_run_append(ib, seq![add], (st1.0, mem2));
            assert(ib.push(add) =~= ib + seq![add]);
            lemma_run_append(blank, ia.push(store), (rax, mem));
            lemma_run_append(blank + ia.push(store), ib.push(add), (rax, mem));
            let fin = run(instrs(e, senv, si), (rax, mem));
            assert forall|k: int| 0 <= k < si && #[trigger] mem.dom().contains(k) implies fin.1.dom().contains(
                k,
            ) && fin.1[k] == mem[k] by {
                assert(mem2.dom().contains(k));
            }
        },
    }
}

/// The code of a closed expression, run from any state, leaves its value in
/// `rax`; its text is the rendering of those instructions.
pub proof fn lemma_compiled_program_computes_eval(e: Expr, rax: int, mem: Map<int, int>)
    requires
        eval_spec(e, Map::empty()) is Some,
        compile_spec(e, Map::empty(), 1) is Some,
    ensures
        compile_spec(e, Map::empty(), 1) == Some(render(instrs(e, Map::empty(), 1))),
        run(instrs(e, Map::empty(), 1), (rax, mem)).0 == eval_spec(e, Map::empty())->Some_0 as int,
{
    lemma_code_is_instructions(e, Map::empty(), 1);
    lemma_code_computes_value(e, Map::empty(), Map::empty(), 1, rax, mem);
}

/// A source text compiles to the program around the rendering of the
/// instructions of the expression it denotes, and running them leaves the
/// value of that expression in `rax`.
pub proof fn lemma_source_computes_value(text: Seq<char>, rax: int, mem: Map<int, int>)
    requires
        source_spec(text) is Some,
        eval_spec(parse_spec(sexp_parse(text)->Some_0)->Some_0, Map::empty()) is Some,
    ensures
        ({
            let e = parse_spec(sexp_parse(text)->Some_0)->Some_0;
            &&& source_spec(text) == Some(program_text(render(instrs(e, Map::empty(), 1))))
            &&& run(instrs(e, Map::empty(), 1), (rax, mem)).0 == eval_spec(e, Map::empty())->Some_0
        }),
{
    let e = parse_spec(sexp_parse(text)->Some_0)->Some_0;
    lemma_compiled_program_computes_eval(e, rax, mem);
}

/// The program of a source text `(add1 s)`, `(sub1 s)` or `(negate s)`
/// leaves in `rax` the value of `s` plus one, minus one, or negated.
pub proof fn lemma_unary_source(text: Seq<char>, v: Vec<Sexpr>, rax: int, mem: Map<int, int>)
    requires
        sexp_parse(text) == Some(Sexpr::List(v)),
        v@.len() == 2,
        is_symbol(v@[0], "add1"@) || is_symbol(v@[0], "sub1"@) || is_symbol(v@[0], "negate"@),
        parse_spec(v@[1]) is Some,
        source_spec(text) is Some,
        eval_spec(parse_spec(sexp_parse(text)->Some_0)->Some_0, Map::empty()) is Some,
    ensures
        ({
            let e = parse_spec(sexp_parse(text)->Some_0)->Some_0;
            let n = eval_spec(parse_spec(v@[1])->Some_0, Map::empty())->Some_0 as int;
            &&& source_spec(text) == Some(program_text(render(instrs(e, Map::empty(), 1))))
            &&& is_symbol(v@[0], "add1"@) ==> run(instrs(e, Map::empty(), 1), (rax, mem)).0 == n + 1
            &&& is_symbol(v@[0], "sub1"@) ==> run(instrs(e, Map::empty(), 1), (rax, mem)).0 == n - 1
            &&& is_symbol(v@[0], "negate"@) ==> run(instrs(e, Map::empty(), 1), (rax, mem)).0 == -n
        }),
{
    let e = parse_spec(sexp_parse(text)->Some_0)->Some_0;
    let a = parse_spec(v@[1])->Some_0;
    lemma_form_readings(v);
    lemma_eval_laws(a, a, v@[0]->Atom_0->S_0, Map::empty());
    lemma_compiled_program_computes_eval(e, rax, mem);
}

} // verus!
