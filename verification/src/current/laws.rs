//! What the code of the current stage promises beyond its text: the label
//! numbers that its lines define lie in the counter range it consumed, and
//! the stack slots that its lines store in lie in the frame it reserves or
//! are slots of variables.
use vstd::prelude::*;
use super::compiler::{
    all_vars_defined, compile_block_spec, compile_spec, label_text, lemma_block_counter_advance,
    lemma_counter_advance, vars, max_nat, vars_block, vars_defined,
};
use super::listing::{
    defines_label, labels_among, lemma_add1_labels, lemma_among_mono, lemma_among_parts,
    lemma_assign_labels, lemma_break_labels, lemma_call1_labels, lemma_call2_labels,
    lemma_eq_labels, lemma_false_labels, lemma_if_labels, lemma_input_labels, lemma_label_head,
    lemma_let_labels, lemma_loop_labels, lemma_mult_labels, lemma_neg_labels, lemma_num_labels,
    lemma_plus_labels, lemma_print_labels, lemma_sub1_labels, lemma_true_labels, lemma_var_labels,
    lemma_vec_labels, text_labels,
};
use super::stores::{
    defines_store, lemma_add1_stores, lemma_assign_stores, lemma_break_stores, lemma_call1_stores,
    lemma_call2_stores, lemma_eq_stores, lemma_false_stores, lemma_if_stores, lemma_input_stores,
    lemma_let_stores, lemma_loop_stores, lemma_mult_stores, lemma_neg_stores, lemma_num_stores,
    lemma_plus_stores, lemma_print_stores, lemma_stores_mono, lemma_stores_parts,
    lemma_sub1_stores, lemma_true_stores, lemma_var_stores, lemma_vec_stores, stores_among,
    text_stores,
};
use crate::lines::{lines, one_line};
use crate::text::join_lines;
use crate::week5_vec::expr::Expr;

verus! {

/// The numbers of the labels that the code of `e` defines (`label_else_n:`,
/// `label_exit_n:`, `eq_exit_n:`, `loop_start_n:`, `loop_exit_n:`), read off
/// the same counter values that `compile_spec` threads through `e`.
pub open spec fn label_numbers(
    e: Expr,
    env: Map<Seq<char>, i32>,
    sp: int,
    count: int,
    brk: Seq<char>,
) -> Set<int>
    decreases e,
{
    match e {
        Expr::Add1(a) | Expr::Sub1(a) | Expr::Neg(a) | Expr::Assign(_, a) | Expr::Break(a)
        | Expr::Print(a) | Expr::Call1(_, a) => label_numbers(*a, env, sp, count, brk),
        Expr::Let(x, a, b) => {
            let k1 = compile_spec(*a, env, sp, count, brk)->Some_0.1;
            label_numbers(*a, env, sp, count, brk) + label_numbers(
                *b,
                env.insert(x@, sp as i32),
                sp + 1,
                k1,
                brk,
            )
        },
        Expr::Plus(a, b) | Expr::Mult(a, b) | Expr::Call2(_, a, b) | Expr::Vec(a, b) => {
            let k1 = compile_spec(*a, env, sp, count, brk)->Some_0.1;
            label_numbers(*a, env, sp, count, brk) + label_numbers(*b, env, sp + 1, k1, brk)
        },
        Expr::Eq(a, b) => {
            let k1 = compile_spec(*a, env, sp, count, brk)->Some_0.1;
            let k2 = compile_spec(*b, env, sp + 1, k1, brk)->Some_0.1;
            label_numbers(*a, env, sp, count, brk) + label_numbers(*b, env, sp + 1, k1, brk) + set![
                k2 + 1,
            ]
        },
        Expr::If(a, b, c) => {
            let k1 = compile_spec(*a, env, sp, count + 1, brk)->Some_0.1;
            let k2 = compile_spec(*b, env, sp, k1, brk)->Some_0.1;
            let k3 = compile_spec(*c, env, sp, k2, brk)->Some_0.1;
            label_numbers(*a, env, sp, count + 1, brk) + label_numbers(*b, env, sp, k1, brk)
                + label_numbers(*c, env, sp, k2, brk) + set![k3]
        },
        Expr::Loop(a) => label_numbers(
            *a,
            env,
            sp,
            count + 1,
            label_text("loop_exit"@, count + 1),
        ) + set![count + 1],
        Expr::Block(es) => block_label_numbers(es@, env, sp, count, brk),
        _ => Set::empty(),
    }
}

/// The numbers of the labels that the codes of a block define.
pub open spec fn block_label_numbers(
    es: Seq<Expr>,
    env: Map<Seq<char>, i32>,
    sp: int,
    count: int,
    brk: Seq<char>,
) -> Set<int>
    decreases es,
{
    if es.len() == 0 {
        Set::empty()
    } else {
        let k = compile_block_spec(es.drop_last(), env, sp, count, brk)->Some_0.1;
        block_label_numbers(es.drop_last(), env, sp, count, brk) + label_numbers(
            es.last(),
            env,
            sp,
            k,
            brk,
        )
    }
}

/// Every member of `s` lies between `lo` and `hi`.
pub open spec fn within(s: Set<int>, lo: int, hi: int) -> bool {
    forall|n: int| #[trigger] s.contains(n) ==> lo <= n <= hi
}

proof fn lemma_union_within(
    a: Set<int>,
    b: Set<int>,
    la: int,
    ha: int,
    lb: int,
    hb: int,
    lo: int,
    hi: int,
)
    requires
        within(a, la, ha),
        within(b, lb, hb),
        lo <= la,
        ha <= hi,
        lo <= lb,
        hb <= hi,
    ensures
        within(a + b, lo, hi),
{
    assert forall|n: int| #[trigger] (a + b).contains(n) implies lo <= n <= hi by {
        if a.contains(n) {
        } else {
            assert(b.contains(n));
        }
    }
}

/// The labels of two codes compiled one after the other, the second from
/// the counter that the first left, lie in the range that both consume.
proof fn lemma_labels_in_sequence(a: Set<int>, b: Set<int>, count: int, k1: int, k2: int)
    requires
        within(a, count + 1, k1),
        within(b, k1 + 1, k2),
        count <= k1 <= k2,
    ensures
        within(a + b, count + 1, k2),
{
    lemma_union_within(a, b, count + 1, k1, k1 + 1, k2, count + 1, k2);
}

/// Every label that the code of `e` defines is numbered above the counter
/// before the call and at most the counter after it, so it cannot clash with
/// a label of an earlier call that shares the counter.
pub proof fn lemma_labels_in_counter_range(
    e: Expr,
    env: Map<Seq<char>, i32>,
    sp: int,
    count: int,
    brk: Seq<char>,
)
    requires
        compile_spec(e, env, sp, count, brk) is Some,
    ensures
        within(
            label_numbers(e, env, sp, count, brk),
            count + 1,
            compile_spec(e, env, sp, count, brk)->Some_0.1,
        ),
    decreases e, 1int,
{
    match e {
        Expr::Add1(a) => lemma_labels_in_counter_range(*a, env, sp, count, brk),
        Expr::Sub1(a) => lemma_labels_in_counter_range(*a, env, sp, count, brk),
        Expr::Neg(a) => lemma_labels_in_counter_range(*a, env, sp, count, brk),
        Expr::Assign(_, a) => lemma_labels_in_counter_range(*a, env, sp, count, brk),
        Expr::Break(a) => lemma_labels_in_counter_range(*a, env, sp, count, brk),
        Expr::Print(a) => lemma_labels_in_counter_range(*a, env, sp, count, brk),
        Expr::Call1(_, a) => lemma_labels_in_counter_range(*a, env, sp, count, brk),
        Expr::Let(..) | Expr::Plus(..) | Expr::Mult(..) | Expr::Call2(..) | Expr::Vec(..)
        | Expr::Eq(..) => lemma_labels_pair(e, env, sp, count, brk),
        Expr::If(..) => lemma_labels_if(e, env, sp, count, brk),
        Expr::Loop(a) => {
            let brk2 = label_text("loop_exit"@, count + 1);
            lemma_labels_in_counter_range(*a, env, sp, count + 1, brk2);
            lemma_counter_advance(*a, env, sp, count + 1, brk2);
            lemma_union_within(
                label_numbers(*a, env, sp, count + 1, brk2),
                set![count + 1],
                count + 2,
                compile_spec(*a, env, sp, count + 1, brk2)->Some_0.1,
                count + 1,
                count + 1,
                count + 1,
                compile_spec(e, env, sp, count, brk)->Some_0.1,
            );
        },
        Expr::Block(es) => {
            lemma_block_labels_in_counter_range(es@, env, sp, count, brk);
        },
        _ => {},
    }
}

proof fn lemma_labels_pair(
    e: Expr,
    env: Map<Seq<char>, i32>,
    sp: int,
    count: int,
    brk: Seq<char>,
)
    requires
        compile_spec(e, env, sp, count, brk) is Some,
        e is Let || e is Plus || e is Mult || e is Call2 || e is Vec || e is Eq,
    ensures
        within(
            label_numbers(e, env, sp, count, brk),
            count + 1,
            compile_spec(e, env, sp, count, brk)->Some_0.1,
        ),
    decreases e, 0int,
{
    let (a, b, env2) = match e {
        Expr::Let(x, a, b) => (*a, *b, env.insert(x@, sp as i32)),
        Expr::Plus(a, b) => (*a, *b, env),
        Expr::Mult(a, b) => (*a, *b, env),
        Expr::Call2(_, a, b) => (*a, *b, env),
        Expr::Vec(a, b) => (*a, *b, env),
        Expr::Eq(a, b) => (*a, *b, env),
        _ => (e, e, env),
    };
    assert(decreases_to!(e => a));
    assert(decreases_to!(e => b));
    lemma_labels_in_counter_range(a, env, sp, count, brk);
    lemma_counter_advance(a, env, sp, count, brk);
    let k1 = compile_spec(a, env, sp, count, brk)->Some_0.1;
    lemma_labels_in_counter_range(b, env2, sp + 1, k1, brk);
    lemma_counter_advance(b, env2, sp + 1, k1, brk);
    let k2 = compile_spec(b, env2, sp + 1, k1, brk)->Some_0.1;
    let na = label_numbers(a, env, sp, count, brk);
    let nb = label_numbers(b, env2, sp + 1, k1, brk);
    lemma_labels_in_sequence(na, nb, count, k1, k2);
    if e is Eq {
        lemma_union_within(na + nb, set![k2 + 1], count + 1, k2, k2 + 1, k2 + 1, count + 1, k2 + 1);
    }
}

proof fn lemma_labels_if(
    e: Expr,
    env: Map<Seq<char>, i32>,
    sp: int,
    count: int,
    brk: Seq<char>,
)
    requires
        compile_spec(e, env, sp, count, brk) is Some,
        e is If,
    ensures
        within(
            label_numbers(e, env, sp, count, brk),
            count + 1,
            compile_spec(e, env, sp, count, brk)->Some_0.1,
        ),
    decreases e, 0int,
{
    if let Expr::If(a, b, c) = e {
        lemma_labels_in_counter_range(*a, env, sp, count + 1, brk);
        lemma_counter_advance(*a, env, sp, count + 1, brk);
        let k1 = compile_spec(*a, env, sp, count + 1, brk)->Some_0.1;
        lemma_labels_in_counter_range(*b, env, sp, k1, brk);
        lemma_counter_advance(*b, env, sp, k1, brk);
        let k2 = compile_spec(*b, env, sp, k1, brk)->Some_0.1;
        lemma_labels_in_counter_range(*c, env, sp, k2, brk);
        lemma_counter_advance(*c, env, sp, k2, brk);
        let k3 = compile_spec(*c, env, sp, k2, brk)->Some_0.1;
        let na = label_numbers(*a, env, sp, count + 1, brk);
        let nb = label_numbers(*b, env, sp, k1, brk);
        let nc = label_numbers(*c, env, sp, k2, brk);
        lemma_labels_in_sequence(na, nb, count + 1, k1, k2);
        lemma_union_within(na + nb, nc, count + 2, k2, k2 + 1, k3, count + 1, k3);
        lemma_union_within(na + nb + nc, set![k3], count + 1, k3, k3, k3, count + 1, k3);
    }
}

/// Every label that the codes of a block define lies in the counter range
/// that the block consumes.
pub proof fn lemma_block_labels_in_counter_range(
    es: Seq<Expr>,
    env: Map<Seq<char>, i32>,
    sp: int,
    count: int,
    brk: Seq<char>,
)
    requires
        compile_block_spec(es, env, sp, count, brk) is Some,
    ensures
        within(
            block_label_numbers(es, env, sp, count, brk),
            count + 1,
            compile_block_spec(es, env, sp, count, brk)->Some_0.1,
        ),
    decreases es, 0int,
{
    if es.len() > 0 {
        lemma_block_labels_in_counter_range(es.drop_last(), env, sp, count, brk);
        lemma_block_counter_advance(es.drop_last(), env, sp, count, brk);
        let k = compile_block_spec(es.drop_last(), env, sp, count, brk)->Some_0.1;
        lemma_labels_in_counter_range(es.last(), env, sp, k, brk);
        lemma_counter_advance(es.last(), env, sp, k, brk);
        lemma_labels_in_sequence(
            block_label_numbers(es.drop_last(), env, sp, count, brk),
            label_numbers(es.last(), env, sp, k, brk),
            count,
            k,
            compile_spec(es.last(), env, sp, k, brk)->Some_0.1,
        );
    }
}

/// The stack slots that the code of `e`, started with next free slot `sp`,
/// stores intermediate values and `let` bindings in (`mov [rbp - 8*k], rax`,
/// or `mov [rbp - 8k], rax` for a product); an assignment's target is a
/// variable's slot and not counted here.
pub open spec fn store_slots(e: Expr, sp: int) -> Set<int>
    decreases e,
{
    match e {
        Expr::Add1(a) | Expr::Sub1(a) | Expr::Neg(a) | Expr::Assign(_, a) | Expr::Loop(a)
        | Expr::Break(a) | Expr::Print(a) | Expr::Call1(_, a) => store_slots(*a, sp),
        Expr::Let(_, a, b) | Expr::Plus(a, b) | Expr::Mult(a, b) | Expr::Eq(a, b) | Expr::Call2(
            _,
            a,
            b,
        ) | Expr::Vec(a, b) => store_slots(*a, sp) + store_slots(*b, sp + 1) + set![sp],
        Expr::If(a, b, c) => store_slots(*a, sp) + store_slots(*b, sp) + store_slots(*c, sp),
        Expr::Block(es) => block_store_slots(es@, sp),
        _ => Set::empty(),
    }
}

/// The stack slots that the codes of a block store in.
pub open spec fn block_store_slots(es: Seq<Expr>, sp: int) -> Set<int>
    decreases es,
{
    if es.len() == 0 {
        Set::empty()
    } else {
        block_store_slots(es.drop_last(), sp) + store_slots(es.last(), sp)
    }
}

/// The code of `e` stores its temporaries only in slots `sp` to
/// `sp - 1 + vars(e)`, so the `vars(e) + sp` slots that `compile_entry`
/// reserves hold all of them.
pub proof fn lemma_stores_within_frame(e: Expr, sp: int)
    requires
        vars_defined(e),
    ensures
        within(store_slots(e, sp), sp, sp - 1 + vars(e)),
    decreases e, 1int,
{
    match e {
        Expr::Add1(a) => lemma_stores_within_frame(*a, sp),
        Expr::Sub1(a) => lemma_stores_within_frame(*a, sp),
        Expr::Neg(a) => lemma_stores_within_frame(*a, sp),
        Expr::Assign(_, a) => lemma_stores_within_frame(*a, sp),
        Expr::Loop(a) => lemma_stores_within_frame(*a, sp),
        Expr::Break(a) => lemma_stores_within_frame(*a, sp),
        Expr::Print(a) => lemma_stores_within_frame(*a, sp),
        Expr::Call1(_, a) => lemma_stores_within_frame(*a, sp),
        Expr::Let(..) | Expr::Plus(..) | Expr::Mult(..) | Expr::Eq(..) | Expr::Call2(..)
        | Expr::Vec(..) => lemma_stores_pair(e, sp),
        Expr::If(a, b, c) => {
            lemma_stores_within_frame(*a, sp);
            lemma_stores_within_frame(*b, sp);
            lemma_stores_within_frame(*c, sp);
            let hi = sp - 1 + vars(e);
            let sa = store_slots(*a, sp);
            let sb = store_slots(*b, sp);
            let sc = store_slots(*c, sp);
            lemma_union_within(sa, sb, sp, sp - 1 + vars(*a), sp, sp - 1 + vars(*b), sp, hi);
            lemma_union_within(sa + sb, sc, sp, hi, sp, sp - 1 + vars(*c), sp, hi);
        },
        Expr::Block(es) => lemma_block_stores_within_frame(es@, sp),
        _ => {},
    }
}

proof fn lemma_stores_pair(e: Expr, sp: int)
    requires
        vars_defined(e),
        e is Let || e is Plus || e is Mult || e is Eq || e is Call2 || e is Vec,
    ensures
        within(store_slots(e, sp), sp, sp - 1 + vars(e)),
    decreases e, 0int,
{
    let (a, b) = match e {
        Expr::Let(_, a, b) => (*a, *b),
        Expr::Plus(a, b) => (*a, *b),
        Expr::Mult(a, b) => (*a, *b),
        Expr::Eq(a, b) => (*a, *b),
        Expr::Call2(_, a, b) => (*a, *b),
        Expr::Vec(a, b) => (*a, *b),
        _ => (e, e),
    };
    assert(decreases_to!(e => a));
    assert(decreases_to!(e => b));
    lemma_stores_within_frame(a, sp);
    lemma_stores_within_frame(b, sp + 1);
    let hi = sp - 1 + vars(e);
    let sa = store_slots(a, sp);
    let sb = store_slots(b, sp + 1);
    assert(vars(e) == max_nat(vars(a), 1 + vars(b)));
    lemma_union_within(sa, sb, sp, sp - 1 + vars(a), sp + 1, sp + vars(b), sp, hi);
    lemma_union_within(sa + sb, set![sp], sp, hi, sp, sp, sp, hi);
}

/// The codes of a block store only in slots `sp` to `sp - 1` plus the
/// largest slot count of its expressions.
pub proof fn lemma_block_stores_within_frame(es: Seq<Expr>, sp: int)
    requires
        all_vars_defined(es),
    ensures
        within(block_store_slots(es, sp), sp, sp - 1 + vars_block(es)),
    decreases es, 0int,
{
    if es.len() > 0 {
        lemma_block_stores_within_frame(es.drop_last(), sp);
        lemma_stores_within_frame(es.last(), sp);
        let hi = sp - 1 + vars_block(es);
        lemma_union_within(
            block_store_slots(es.drop_last(), sp),
            store_slots(es.last(), sp),
            sp,
            sp - 1 + vars_block(es.drop_last()),
            sp,
            sp - 1 + vars(es.last()),
            sp,
            hi,
        );
    }
}

/// Whether every function name that `e` calls fits on one line.
pub open spec fn names_one_line(e: Expr) -> bool
    decreases e,
{
    match e {
        Expr::Call1(f, a) => one_line(f@) && names_one_line(*a),
        Expr::Call2(f, a, b) => one_line(f@) && names_one_line(*a) && names_one_line(*b),
        Expr::Add1(a) | Expr::Sub1(a) | Expr::Neg(a) | Expr::Assign(_, a) | Expr::Loop(a)
        | Expr::Break(a) | Expr::Print(a) | Expr::Get(a, _) => names_one_line(*a),
        Expr::Let(_, a, b) | Expr::Plus(a, b) | Expr::Mult(a, b) | Expr::Eq(a, b) | Expr::Le(a, b)
        | Expr::Vec(a, b) => names_one_line(*a) && names_one_line(*b),
        Expr::If(a, b, c) => names_one_line(*a) && names_one_line(*b) && names_one_line(*c),
        Expr::Block(es) => all_names_one_line(es@),
        _ => true,
    }
}

/// Whether the function names of every expression of `es` fit on one line.
pub open spec fn all_names_one_line(es: Seq<Expr>) -> bool
    decreases es,
{
    es.len() == 0 || (all_names_one_line(es.drop_last()) && names_one_line(es.last()))
}

/// The labels that the lines of the code of `e` define are the ones that
/// `label_numbers` counts: no line of the code defines any other.
pub proof fn lemma_code_labels(
    e: Expr,
    env: Map<Seq<char>, i32>,
    sp: int,
    count: int,
    brk: Seq<char>,
)
    requires
        compile_spec(e, env, sp, count, brk) is Some,
        names_one_line(e),
        one_line(brk),
    ensures
        labels_among(
            compile_spec(e, env, sp, count, brk)->Some_0.0,
            label_numbers(e, env, sp, count, brk),
        ),
    decreases e, 1int,
{
    let s = label_numbers(e, env, sp, count, brk);
    match e {
        Expr::Num(n) => lemma_num_labels((n << 1) as int, s),
        Expr::Var(x) => lemma_var_labels(env[x@] as int, s),
        Expr::Input => lemma_input_labels(s),
        Expr::True => lemma_true_labels(s),
        Expr::False => lemma_false_labels(s),
        Expr::Add1(a) => {
            lemma_code_labels(*a, env, sp, count, brk);
            lemma_add1_labels(compile_spec(*a, env, sp, count, brk)->Some_0.0, s);
        },
        Expr::Sub1(a) => {
            lemma_code_labels(*a, env, sp, count, brk);
            lemma_sub1_labels(compile_spec(*a, env, sp, count, brk)->Some_0.0, s);
        },
        Expr::Neg(a) => {
            lemma_code_labels(*a, env, sp, count, brk);
            lemma_neg_labels(compile_spec(*a, env, sp, count, brk)->Some_0.0, s);
        },
        Expr::Assign(x, a) => {
            lemma_code_labels(*a, env, sp, count, brk);
            lemma_assign_labels(compile_spec(*a, env, sp, count, brk)->Some_0.0, env[x@] as int, s);
        },
        Expr::Break(a) => {
            lemma_code_labels(*a, env, sp, count, brk);
            lemma_break_labels(compile_spec(*a, env, sp, count, brk)->Some_0.0, brk, s);
        },
        Expr::Print(a) => {
            lemma_code_labels(*a, env, sp, count, brk);
            lemma_print_labels(compile_spec(*a, env, sp, count, brk)->Some_0.0, s);
        },
        Expr::Call1(f, a) => {
            lemma_code_labels(*a, env, sp, count, brk);
            lemma_call1_labels(compile_spec(*a, env, sp, count, brk)->Some_0.0, f@, s);
        },
        Expr::Loop(a) => {
            let brk2 = label_text("loop_exit"@, count + 1);
            lemma_label_head("loop_exit"@, count + 1);
            lemma_code_labels(*a, env, sp, count + 1, brk2);
            let c = compile_spec(*a, env, sp, count + 1, brk2)->Some_0.0;
            lemma_among_mono(c, label_numbers(*a, env, sp, count + 1, brk2), s);
            lemma_loop_labels(c, count + 1, s);
        },
        Expr::Let(..) | Expr::Plus(..) | Expr::Mult(..) | Expr::Call2(..) | Expr::Vec(..)
        | Expr::Eq(..) => lemma_code_labels_pair(e, env, sp, count, brk),
        Expr::If(..) => lemma_code_labels_if(e, env, sp, count, brk),
        Expr::Block(es) => {
            lemma_block_code_labels(es@, env, sp, count, brk);
            let codes = compile_block_spec(es@, env, sp, count, brk)->Some_0.0;
            lemma_among_parts(codes, s);
        },
        _ => {},
    }
}

proof fn lemma_code_labels_pair(
    e: Expr,
    env: Map<Seq<char>, i32>,
    sp: int,
    count: int,
    brk: Seq<char>,
)
    requires
        compile_spec(e, env, sp, count, brk) is Some,
        names_one_line(e),
        one_line(brk),
        e is Let || e is Plus || e is Mult || e is Call2 || e is Vec || e is Eq,
    ensures
        labels_among(
            compile_spec(e, env, sp, count, brk)->Some_0.0,
            label_numbers(e, env, sp, count, brk),
        ),
    decreases e, 0int,
{
    let s = label_numbers(e, env, sp, count, brk);
    let (a, b, env2) = match e {
        Expr::Let(x, a, b) => (*a, *b, env.insert(x@, sp as i32)),
        Expr::Plus(a, b) => (*a, *b, env),
        Expr::Mult(a, b) => (*a, *b, env),
        Expr::Call2(_, a, b) => (*a, *b, env),
        Expr::Vec(a, b) => (*a, *b, env),
        Expr::Eq(a, b) => (*a, *b, env),
        _ => (e, e, env),
    };
    assert(decreases_to!(e => a));
    assert(decreases_to!(e => b));
    lemma_code_labels(a, env, sp, count, brk);
    let k1 = compile_spec(a, env, sp, count, brk)->Some_0.1;
    lemma_code_labels(b, env2, sp + 1, k1, brk);
    let c1 = compile_spec(a, env, sp, count, brk)->Some_0.0;
    let c2 = compile_spec(b, env2, sp + 1, k1, brk)->Some_0.0;
    let k2 = compile_spec(b, env2, sp + 1, k1, brk)->Some_0.1;
    lemma_among_mono(c1, label_numbers(a, env, sp, count, brk), s);
    lemma_among_mono(c2, label_numbers(b, env2, sp + 1, k1, brk), s);
    match e {
        Expr::Let(..) => lemma_let_labels(c1, c2, sp, s),
        Expr::Plus(..) => lemma_plus_labels(c1, c2, sp, s),
        Expr::Mult(..) => lemma_mult_labels(c1, c2, sp, s),
        Expr::Call2(f, _, _) => lemma_call2_labels(c1, c2, sp, f@, s),
        Expr::Vec(..) => lemma_vec_labels(c1, c2, sp, s),
        Expr::Eq(..) => lemma_eq_labels(c1, c2, sp, k2 + 1, s),
        _ => {},
    }
}

proof fn lemma_code_labels_if(
    e: Expr,
    env: Map<Seq<char>, i32>,
    sp: int,
    count: int,
    brk: Seq<char>,
)
    requires
        compile_spec(e, env, sp, count, brk) is Some,
        names_one_line(e),
        one_line(brk),
        e is If,
    ensures
        labels_among(
            compile_spec(e, env, sp, count, brk)->Some_0.0,
            label_numbers(e, env, sp, count, brk),
        ),
    decreases e, 0int,
{
    if let Expr::If(a, b, c) = e {
        let s = label_numbers(e, env, sp, count, brk);
        lemma_code_labels(*a, env, sp, count + 1, brk);
        let k1 = compile_spec(*a, env, sp, count + 1, brk)->Some_0.1;
        lemma_code_labels(*b, env, sp, k1, brk);
        let k2 = compile_spec(*b, env, sp, k1, brk)->Some_0.1;
        lemma_code_labels(*c, env, sp, k2, brk);
        let k3 = compile_spec(*c, env, sp, k2, brk)->Some_0.1;
        let c1 = compile_spec(*a, env, sp, count + 1, brk)->Some_0.0;
        let c2 = compile_spec(*b, env, sp, k1, brk)->Some_0.0;
        let c3 = compile_spec(*c, env, sp, k2, brk)->Some_0.0;
        lemma_among_mono(c1, label_numbers(*a, env, sp, count + 1, brk), s);
        lemma_among_mono(c2, label_numbers(*b, env, sp, k1, brk), s);
        lemma_among_mono(c3, label_numbers(*c, env, sp, k2, brk), s);
        lemma_if_labels(c1, c2, c3, k3, s);
    }
}

/// The labels that the lines of the codes of a block define are the ones
/// that `block_label_numbers` counts.
pub proof fn lemma_block_code_labels(
    es: Seq<Expr>,
    env: Map<Seq<char>, i32>,
    sp: int,
    count: int,
    brk: Seq<char>,
)
    requires
        compile_block_spec(es, env, sp, count, brk) is Some,
        all_names_one_line(es),
        one_line(brk),
    ensures
        forall|i: int|
            0 <= i < compile_block_spec(es, env, sp, count, brk)->Some_0.0.len() ==> labels_among(
                #[trigger] compile_block_spec(es, env, sp, count, brk)->Some_0.0[i],
                block_label_numbers(es, env, sp, count, brk),
            ),
    decreases es, 0int,
{
    if es.len() > 0 {
        let s = block_label_numbers(es, env, sp, count, brk);
        let prev = compile_block_spec(es.drop_last(), env, sp, count, brk)->Some_0.0;
        let k = compile_block_spec(es.drop_last(), env, sp, count, brk)->Some_0.1;
        lemma_block_code_labels(es.drop_last(), env, sp, count, brk);
        lemma_code_labels(es.last(), env, sp, k, brk);
        let c = compile_spec(es.last(), env, sp, k, brk)->Some_0.0;
        let codes = compile_block_spec(es, env, sp, count, brk)->Some_0.0;
        assert(codes == prev.push(c));
        assert forall|i: int| 0 <= i < codes.len() implies labels_among(#[trigger] codes[i], s) by {
            if i < prev.len() {
                assert(codes[i] == prev[i]);
                lemma_among_mono(prev[i], block_label_numbers(es.drop_last(), env, sp, count, brk), s);
            } else {
                lemma_among_mono(c, label_numbers(es.last(), env, sp, k, brk), s);
            }
        }
    }
}

/// Every label that a line of the code of `e` defines (a line that is,
/// blanks aside, `P_k:` for one of the label prefixes) is numbered above the
/// counter before the call and at most the counter after it.
pub proof fn lemma_text_labels_in_counter_range(
    e: Expr,
    env: Map<Seq<char>, i32>,
    sp: int,
    count: int,
    brk: Seq<char>,
    k: int,
)
    requires
        compile_spec(e, env, sp, count, brk) is Some,
        names_one_line(e),
        one_line(brk),
        text_labels(compile_spec(e, env, sp, count, brk)->Some_0.0).contains(k),
    ensures
        count + 1 <= k <= compile_spec(e, env, sp, count, brk)->Some_0.1,
{
    lemma_code_labels(e, env, sp, count, brk);
    lemma_labels_in_counter_range(e, env, sp, count, brk);
    let t = compile_spec(e, env, sp, count, brk)->Some_0.0;
    let i = choose|i: int| 0 <= i < lines(t).len() && defines_label(#[trigger] lines(t)[i], k);
    assert(defines_label(lines(t)[i], k));
    assert(label_numbers(e, env, sp, count, brk).contains(k));
}

/// The slots of the variables of `env`.
pub open spec fn env_slots(env: Map<Seq<char>, i32>) -> Set<int> {
    Set::new(|k: int| exists|x: Seq<char>| env.dom().contains(x) && #[trigger] env[x] as int == k)
}

/// The slots that the lines of the code of `e` store in are the ones that
/// `store_slots` counts, or the slot of a variable of `env` that an
/// assignment writes.
pub proof fn lemma_code_stores(
    e: Expr,
    env: Map<Seq<char>, i32>,
    sp: int,
    count: int,
    brk: Seq<char>,
)
    requires
        compile_spec(e, env, sp, count, brk) is Some,
        vars_defined(e),
        0 <= sp,
        sp + vars(e) <= i32::MAX,
        names_one_line(e),
        one_line(brk),
    ensures
        stores_among(compile_spec(e, env, sp, count, brk)->Some_0.0, store_slots(e, sp) + env_slots(env)),
    decreases e, 1int,
{
    let s = store_slots(e, sp) + env_slots(env);
    match e {
        Expr::Num(n) => lemma_num_stores((n << 1) as int, s),
        Expr::Var(x) => lemma_var_stores(env[x@] as int, s),
        Expr::Input => lemma_input_stores(s),
        Expr::True => lemma_true_stores(s),
        Expr::False => lemma_false_stores(s),
        Expr::Add1(a) => {
            lemma_code_stores(*a, env, sp, count, brk);
            lemma_add1_stores(compile_spec(*a, env, sp, count, brk)->Some_0.0, s);
        },
        Expr::Sub1(a) => {
            lemma_code_stores(*a, env, sp, count, brk);
            lemma_sub1_stores(compile_spec(*a, env, sp, count, brk)->Some_0.0, s);
        },
        Expr::Neg(a) => {
            lemma_code_stores(*a, env, sp, count, brk);
            lemma_neg_stores(compile_spec(*a, env, sp, count, brk)->Some_0.0, s);
        },
        Expr::Assign(x, a) => {
            lemma_code_stores(*a, env, sp, count, brk);
            assert(env_slots(env).contains(env[x@] as int));
            lemma_assign_stores(compile_spec(*a, env, sp, count, brk)->Some_0.0, env[x@] as int, s);
        },
        Expr::Break(a) => {
            lemma_code_stores(*a, env, sp, count, brk);
            lemma_break_stores(compile_spec(*a, env, sp, count, brk)->Some_0.0, brk, s);
        },
        Expr::Print(a) => {
            lemma_code_stores(*a, env, sp, count, brk);
            lemma_print_stores(compile_spec(*a, env, sp, count, brk)->Some_0.0, s);
        },
        Expr::Call1(f, a) => {
            lemma_code_stores(*a, env, sp, count, brk);
            lemma_call1_stores(compile_spec(*a, env, sp, count, brk)->Some_0.0, f@, s);
        },
        Expr::Loop(a) => {
            let brk2 = label_text("loop_exit"@, count + 1);
            lemma_label_head("loop_exit"@, count + 1);
            lemma_code_stores(*a, env, sp, count + 1, brk2);
            lemma_loop_stores(compile_spec(*a, env, sp, count + 1, brk2)->Some_0.0, count + 1, s);
        },
        Expr::Let(..) | Expr::Plus(..) | Expr::Mult(..) | Expr::Call2(..) | Expr::Vec(..)
        | Expr::Eq(..) => lemma_code_stores_pair(e, env, sp, count, brk),
        Expr::If(a, b, c) => {
            lemma_code_stores(*a, env, sp, count + 1, brk);
            let k1 = compile_spec(*a, env, sp, count + 1, brk)->Some_0.1;
            lemma_code_stores(*b, env, sp, k1, brk);
            let k2 = compile_spec(*b, env, sp, k1, brk)->Some_0.1;
            lemma_code_stores(*c, env, sp, k2, brk);
            let k3 = compile_spec(*c, env, sp, k2, brk)->Some_0.1;
            let c1 = compile_spec(*a, env, sp, count + 1, brk)->Some_0.0;
            let c2 = compile_spec(*b, env, sp, k1, brk)->Some_0.0;
            let c3 = compile_spec(*c, env, sp, k2, brk)->Some_0.0;
            lemma_stores_mono(c1, store_slots(*a, sp) + env_slots(env), s);
            lemma_stores_mono(c2, store_slots(*b, sp) + env_slots(env), s);
            lemma_stores_mono(c3, store_slots(*c, sp) + env_slots(env), s);
            lemma_if_stores(c1, c2, c3, k3, s);
        },
        Expr::Block(es) => {
            lemma_block_code_stores(es@, env, sp, count, brk);
            let codes = compile_block_spec(es@, env, sp, count, brk)->Some_0.0;
            lemma_stores_parts(codes, s);
        },
        _ => {},
    }
}

proof fn lemma_code_stores_pair(
    e: Expr,
    env: Map<Seq<char>, i32>,
    sp: int,
    count: int,
    brk: Seq<char>,
)
    requires
        compile_spec(e, env, sp, count, brk) is Some,
        vars_defined(e),
        0 <= sp,
        sp + vars(e) <= i32::MAX,
        names_one_line(e),
        one_line(brk),
        e is Let || e is Plus || e is Mult || e is Call2 || e is Vec || e is Eq,
    ensures
        stores_among(compile_spec(e, env, sp, count, brk)->Some_0.0, store_slots(e, sp) + env_slots(env)),
    decreases e, 0int,
{
    let s = store_slots(e, sp) + env_slots(env);
    let (a, b, env2) = match e {
        Expr::Let(x, a, b) => (*a, *b, env.insert(x@, sp as i32)),
        Expr::Plus(a, b) => (*a, *b, env),
        Expr::Mult(a, b) => (*a, *b, env),
        Expr::Call2(_, a, b) => (*a, *b, env),
        Expr::Vec(a, b) => (*a, *b, env),
        Expr::Eq(a, b) => (*a, *b, env),
        _ => (e, e, env),
    };
    assert(decreases_to!(e => a));
    assert(decreases_to!(e => b));
    assert(store_slots(e, sp) == store_slots(a, sp) + store_slots(b, sp + 1) + set![sp]);
    assert(vars(e) == max_nat(vars(a), 1 + vars(b)));
    lemma_code_stores(a, env, sp, count, brk);
    let k1 = compile_spec(a, env, sp, count, brk)->Some_0.1;
    lemma_code_stores(b, env2, sp + 1, k1, brk);
    let c1 = compile_spec(a, env, sp, count, brk)->Some_0.0;
    let c2 = compile_spec(b, env2, sp + 1, k1, brk)->Some_0.0;
    let k2 = compile_spec(b, env2, sp + 1, k1, brk)->Some_0.1;
    lemma_stores_mono(c1, store_slots(a, sp) + env_slots(env), s);
    assert forall|k: int| #[trigger] env_slots(env2).contains(k) implies s.contains(k) by {
        let x = choose|x: Seq<char>| env2.dom().contains(x) && #[trigger] env2[x] as int == k;
        if !env.dom().contains(x) || env[x] != env2[x] {
            assert(k == sp);
        } else {
            assert(env_slots(env).contains(k));
        }
    }
    lemma_stores_mono(c2, store_slots(b, sp + 1) + env_slots(env2), s);
    assert(s.contains(sp));
    match e {
        Expr::Let(..) => lemma_let_stores(c1, c2, sp, s),
        Expr::Plus(..) => lemma_plus_stores(c1, c2, sp, s),
        Expr::Mult(..) => lemma_mult_stores(c1, c2, sp, s),
        Expr::Call2(f, _, _) => lemma_call2_stores(c1, c2, sp, f@, s),
        Expr::Vec(..) => lemma_vec_stores(c1, c2, sp, s),
        Expr::Eq(..) => lemma_eq_stores(c1, c2, sp, k2 + 1, s),
        _ => {},
    }
}

/// The slots that the lines of the codes of a block store in are the ones
/// that `block_store_slots` counts, or slots of variables of `env`.
pub proof fn lemma_block_code_stores(
    es: Seq<Expr>,
    env: Map<Seq<char>, i32>,
    sp: int,
    count: int,
    brk: Seq<char>,
)
    requires
        compile_block_spec(es, env, sp, count, brk) is Some,
        all_vars_defined(es),
        0 <= sp,
        sp + vars_block(es) <= i32::MAX,
        all_names_one_line(es),
        one_line(brk),
    ensures
        forall|i: int|
            0 <= i < compile_block_spec(es, env, sp, count, brk)->Some_0.0.len() ==> stores_among(
                #[trigger] compile_block_spec(es, env, sp, count, brk)->Some_0.0[i],
                block_store_slots(es, sp) + env_slots(env),
            ),
    decreases es, 0int,
{
    if es.len() > 0 {
        let s = block_store_slots(es, sp) + env_slots(env);
        let prev = compile_block_spec(es.drop_last(), env, sp, count, brk)->Some_0.0;
        let k = compile_block_spec(es.drop_last(), env, sp, count, brk)->Some_0.1;
        lemma_block_code_stores(es.drop_last(), env, sp, count, brk);
        lemma_code_stores(es.last(), env, sp, k, brk);
        let c = compile_spec(es.last(), env, sp, k, brk)->Some_0.0;
        let codes = compile_block_spec(es, env, sp, count, brk)->Some_0.0;
        assert(codes == prev.push(c));
        assert forall|i: int| 0 <= i < codes.len() implies stores_among(#[trigger] codes[i], s) by {
            if i < prev.len() {
                assert(codes[i] == prev[i]);
                lemma_stores_mono(prev[i], block_store_slots(es.drop_last(), sp) + env_slots(env), s);
            } else {
                lemma_stores_mono(c, store_slots(es.last(), sp) + env_slots(env), s);
            }
        }
    }
}

/// Every store of `rax` in the code of `e` (a line that is, blanks aside,
/// `mov [rbp - 8*k], rax` or `mov [rbp - m], rax` with `m == 8*k`) goes to
/// a slot from `sp` to `sp - 1 + vars(e)`, which the frame reserves, or to
/// the slot of a variable of `env` that an assignment writes.
pub proof fn lemma_text_stores_within_frame(
    e: Expr,
    env: Map<Seq<char>, i32>,
    sp: int,
    count: int,
    brk: Seq<char>,
    k: int,
)
    requires
        compile_spec(e, env, sp, count, brk) is Some,
        vars_defined(e),
        0 <= sp,
        sp + vars(e) <= i32::MAX,
        names_one_line(e),
        one_line(brk),
        text_stores(compile_spec(e, env, sp, count, brk)->Some_0.0).contains(k),
    ensures
        sp <= k <= sp - 1 + vars(e) || env_slots(env).contains(k),
{
    lemma_code_stores(e, env, sp, count, brk);
    lemma_stores_within_frame(e, sp);
    let t = compile_spec(e, env, sp, count, brk)->Some_0.0;
    let i = choose|i: int| 0 <= i < lines(t).len() && defines_store(#[trigger] lines(t)[i], k);
    assert(defines_store(lines(t)[i], k));
    assert((store_slots(e, sp) + env_slots(env)).contains(k));
}

/// No line of the code of `e` stores in slot 0, the word at `rbp` where the
/// prologue saved the caller's `rbp`, when the free slots start at 1 or
/// above and no variable sits in slot 0.
pub proof fn lemma_code_spares_saved_rbp(
    e: Expr,
    env: Map<Seq<char>, i32>,
    sp: int,
    count: int,
    brk: Seq<char>,
)
    requires
        compile_spec(e, env, sp, count, brk) is Some,
        vars_defined(e),
        1 <= sp,
        sp + vars(e) <= i32::MAX,
        names_one_line(e),
        one_line(brk),
        !env_slots(env).contains(0),
    ensures
        !text_stores(compile_spec(e, env, sp, count, brk)->Some_0.0).contains(0),
{
    if text_stores(compile_spec(e, env, sp, count, brk)->Some_0.0).contains(0) {
        lemma_text_stores_within_frame(e, env, sp, count, brk, 0);
    }
}

} // verus!
