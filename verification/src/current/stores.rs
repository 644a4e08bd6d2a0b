//! The stack slots that the text of a code stores `rax` in, read line by
//! line: a line that is, blanks around it aside, `mov [rbp - 8*k], rax` or
//! `mov [rbp - m], rax` with `m == 8*k` stores in slot `k`.
use vstd::prelude::*;
use crate::lines::{
    blank, lemma_int_text_chars, lemma_lines_join, lemma_lines_nonempty, lemma_lines_prefix,
    lemma_lines_single, lemma_nat_text_chars, lines, one_line, spaces,
};
use crate::text::{int_text, join_lines, lemma_int_text_injective, nat_text};
use super::compiler::{label_text, test_number_text, FALSE, TRUE};
use super::listing::lemma_label_head;

verus! {

/// Whether the line `l`, blanks around it aside, stores `rax` in slot `k`.
pub open spec fn defines_store(l: Seq<char>, k: int) -> bool {
    exists|a: nat, b: nat|
        #![trigger spaces(a), spaces(b)]
        l == spaces(a) + "mov [rbp - 8*"@ + int_text(k) + "], rax"@ + spaces(b) || l == spaces(a)
            + "mov [rbp - "@ + int_text(8 * k) + "], rax"@ + spaces(b)
}

/// The slots that the lines of `t` store in.
pub open spec fn text_stores(t: Seq<char>) -> Set<int> {
    Set::new(
        |k: int| exists|i: int| 0 <= i < lines(t).len() && defines_store(#[trigger] lines(t)[i], k),
    )
}

/// Whether every slot that a line of `t` stores in is in `s`.
pub open spec fn stores_among(t: Seq<char>, s: Set<int>) -> bool {
    forall|i: int, k: int|
        0 <= i < lines(t).len() && #[trigger] defines_store(lines(t)[i], k) ==> s.contains(k)
}

proof fn lemma_int_one_line(n: int)
    ensures
        one_line(int_text(n)),
{
    lemma_int_text_chars(n);
}

proof fn lemma_nat_one_line(n: nat)
    ensures
        one_line(nat_text(n)),
{
    lemma_nat_text_chars(n);
}

/// The two forms of a store line, with their blanks.
proof fn lemma_store_forms(l: Seq<char>, k: int) -> (r: (nat, nat, bool))
    requires
        defines_store(l, k),
    ensures
        r.2 ==> l == spaces(r.0) + "mov [rbp - 8*"@ + int_text(k) + "], rax"@ + spaces(r.1),
        !r.2 ==> l == spaces(r.0) + "mov [rbp - "@ + int_text(8 * k) + "], rax"@ + spaces(r.1),
        l.len() > r.0 + 10,
        l[r.0 as int] == 'm' && l[r.0 as int + 4] == '[' && l[r.0 as int + 5] == 'r' && l[r.0 as int + 6] == 'b',
        r.0 == 0 || l[0] == ' ',
{
    reveal_strlit("mov [rbp - 8*");
    reveal_strlit("mov [rbp - ");
    reveal_strlit("], rax");
    let (a, b) = choose|a: nat, b: nat|
        #![trigger spaces(a), spaces(b)]
        l == spaces(a) + "mov [rbp - 8*"@ + int_text(k) + "], rax"@ + spaces(b) || l == spaces(a)
            + "mov [rbp - "@ + int_text(8 * k) + "], rax"@ + spaces(b);
    let first = l == spaces(a) + "mov [rbp - 8*"@ + int_text(k) + "], rax"@ + spaces(b);
    if a > 0 {
        assert(l[0] == spaces(a)[0]);
    }
    if first {
        assert(l[a as int] == 'm' && l[a as int + 4] == '[' && l[a as int + 5] == 'r' && l[a as int + 6] == 'b');
    } else {
        assert(l[a as int] == 'm' && l[a as int + 4] == '[' && l[a as int + 5] == 'r' && l[a as int + 6] == 'b');
    }
    (a, b, first)
}

/// Blanks in front of a line do not change which slot it stores in.
proof fn lemma_defines_store_unindent(x: Seq<char>, l: Seq<char>, k: int)
    requires
        blank(x),
        defines_store(x + l, k),
    ensures
        defines_store(l, k),
{
    let (a, b, first) = lemma_store_forms(x + l, k);
    let whole = x + l;
    if a < x.len() {
        assert(whole[a as int] == x[a as int]);
        assert(false);
    }
    let a2 = (a - x.len()) as nat;
    assert(l =~= whole.skip(x.len() as int));
    if first {
        assert(l =~= spaces(a2) + "mov [rbp - 8*"@ + int_text(k) + "], rax"@ + spaces(b));
    } else {
        assert(l =~= spaces(a2) + "mov [rbp - "@ + int_text(8 * k) + "], rax"@ + spaces(b));
    }
}

pub(crate) proof fn lemma_stores_join(a: Seq<char>, b: Seq<char>, s: Set<int>)
    requires
        stores_among(a, s),
        stores_among(b, s),
    ensures
        stores_among(a + "\n"@ + b, s),
{
    lemma_lines_join(a, b);
    let la = lines(a);
    let lb = lines(b);
    assert forall|i: int, k: int|
        0 <= i < lines(a + "\n"@ + b).len() && #[trigger] defines_store(
            lines(a + "\n"@ + b)[i],
            k,
        ) implies s.contains(k) by {
        if i < la.len() {
            assert(lines(a + "\n"@ + b)[i] == la[i]);
        } else {
            assert(lines(a + "\n"@ + b)[i] == lb[i - la.len()]);
        }
    }
}

pub(crate) proof fn lemma_stores_indent(x: Seq<char>, c: Seq<char>, s: Set<int>)
    requires
        blank(x),
        stores_among(c, s),
    ensures
        stores_among(x + c, s),
{
    assert(one_line(x));
    lemma_lines_prefix(x, c);
    lemma_lines_nonempty(c);
    assert forall|i: int, k: int|
        0 <= i < lines(x + c).len() && #[trigger] defines_store(lines(x + c)[i], k) implies s.contains(
        k,
    ) by {
        if i == 0 {
            lemma_defines_store_unindent(x, lines(c)[0], k);
        } else {
            assert(lines(x + c)[i] == lines(c)[i]);
        }
    }
}

/// A line that starts with neither a blank nor `mov [rb` stores in no slot.
pub(crate) proof fn lemma_stores_plain(l: Seq<char>, s: Set<int>)
    requires
        one_line(l),
        l.len() > 6,
        l[0] != ' ',
        l[0] != 'm' || l[4] != '[' || l[5] != 'r' || l[6] != 'b',
    ensures
        stores_among(l, s),
{
    lemma_lines_single(l);
    assert forall|i: int, k: int|
        0 <= i < lines(l).len() && #[trigger] defines_store(lines(l)[i], k) implies s.contains(k) by {
        let (a, b, first) = lemma_store_forms(l, k);
    }
}

/// A short line that does not start with a blank stores in no slot.
pub(crate) proof fn lemma_stores_short(l: Seq<char>, s: Set<int>)
    requires
        one_line(l),
        0 < l.len() <= 10,
        l[0] != ' ',
    ensures
        stores_among(l, s),
{
    lemma_lines_single(l);
    assert forall|i: int, k: int|
        0 <= i < lines(l).len() && #[trigger] defines_store(lines(l)[i], k) implies s.contains(k) by {
        let (a, b, first) = lemma_store_forms(l, k);
    }
}

pub(crate) proof fn lemma_stores_blank(l: Seq<char>, s: Set<int>)
    requires
        blank(l),
    ensures
        stores_among(l, s),
{
    assert(one_line(l));
    lemma_lines_single(l);
    assert forall|i: int, k: int|
        0 <= i < lines(l).len() && #[trigger] defines_store(lines(l)[i], k) implies s.contains(k) by {
        let (a, b, first) = lemma_store_forms(l, k);
        assert(l[a as int] == ' ');
    }
}

/// The line `mov [rbp - 8*k], rax` stores in slot `k` only.
pub(crate) proof fn lemma_stores_slot_line(k: int, s: Set<int>)
    requires
        s.contains(k),
    ensures
        stores_among("mov [rbp - 8*"@ + int_text(k) + "], rax"@, s),
{
    reveal_strlit("mov [rbp - 8*");
    reveal_strlit("mov [rbp - ");
    reveal_strlit("], rax");
    lemma_int_text_chars(k);
    let l = "mov [rbp - 8*"@ + int_text(k) + "], rax"@;
    assert(one_line(l)) by {
        assert forall|i: int| 0 <= i < l.len() implies #[trigger] l[i] != '\n' by {
            if 13 <= i < 13 + int_text(k).len() {
                assert(l[i] == int_text(k)[i - 13]);
            }
        }
    }
    lemma_lines_single(l);
    assert forall|i: int, j: int|
        0 <= i < lines(l).len() && #[trigger] defines_store(lines(l)[i], j) implies s.contains(j) by {
        let (a, b, first) = lemma_store_forms(l, j);
        lemma_int_text_chars(j);
        lemma_int_text_chars(8 * j);
        if a > 0 {
            assert(false);
        }
        if b > 0 {
            assert(l[l.len() - 1] == ' ');
            assert(false);
        }
        if first {
            assert(int_text(j) =~= l.subrange(13, l.len() - 6));
            assert(int_text(k) =~= l.subrange(13, l.len() - 6));
            lemma_int_text_injective(j, k);
        } else {
            assert(l[12] == '*');
            if int_text(8 * j).len() == 1 {
                assert(l[12] == ']');
            } else {
                assert(l[12] == int_text(8 * j)[1]);
            }
            assert(false);
        }
    }
}

/// The line `mov [rbp - m], rax` with `m == 8*k` stores in slot `k` only.
pub(crate) proof fn lemma_stores_scaled_line(k: int, s: Set<int>)
    requires
        k >= 0,
        s.contains(k),
    ensures
        stores_among("mov [rbp - "@ + nat_text((8 * k) as nat) + "], rax"@, s),
{
    reveal_strlit("mov [rbp - 8*");
    reveal_strlit("mov [rbp - ");
    reveal_strlit("], rax");
    lemma_int_text_chars(8 * k);
    assert(int_text(8 * k) == nat_text((8 * k) as nat));
    let l = "mov [rbp - "@ + int_text(8 * k) + "], rax"@;
    assert(one_line(l)) by {
        assert forall|i: int| 0 <= i < l.len() implies #[trigger] l[i] != '\n' by {
            if 11 <= i < 11 + int_text(8 * k).len() {
                assert(l[i] == int_text(8 * k)[i - 11]);
            }
        }
    }
    lemma_lines_single(l);
    assert forall|i: int, j: int|
        0 <= i < lines(l).len() && #[trigger] defines_store(lines(l)[i], j) implies s.contains(j) by {
        let (a, b, first) = lemma_store_forms(l, j);
        lemma_int_text_chars(j);
        if a > 0 {
            assert(false);
        }
        if b > 0 {
            assert(l[l.len() - 1] == ' ');
            assert(false);
        }
        if first {
            assert(l[12] == '*');
            if int_text(8 * k).len() == 1 {
                assert(l[12] == ']');
            } else {
                assert(l[12] == int_text(8 * k)[1]);
            }
            assert(false);
        } else {
            assert(int_text(8 * j) =~= l.subrange(11, l.len() - 6));
            assert(int_text(8 * k) =~= l.subrange(11, l.len() - 6));
            lemma_int_text_injective(8 * j, 8 * k);
        }
    }
}

pub(crate) proof fn lemma_stores_mono(t: Seq<char>, s: Set<int>, s2: Set<int>)
    requires
        stores_among(t, s),
        s.subset_of(s2),
    ensures
        stores_among(t, s2),
{
}

pub(crate) proof fn lemma_stores_parts(parts: Seq<Seq<char>>, s: Set<int>)
    requires
        forall|i: int| 0 <= i < parts.len() ==> stores_among(#[trigger] parts[i], s),
    ensures
        stores_among(join_lines(parts), s),
    decreases parts.len(),
{
    if parts.len() == 0 {
        lemma_stores_blank(Seq::empty(), s);
    } else if parts.len() == 1 {
    } else {
        lemma_stores_parts(parts.drop_last(), s);
        assert(stores_among(parts[parts.len() - 1], s));
        lemma_stores_join(join_lines(parts.drop_last()), parts.last(), s);
    }
}

/// A line of blanks, then a piece that starts with neither a blank nor
/// `mov [rb`, then more text on the same line, stores in no slot.
pub(crate) proof fn lemma_stores_line(b: Seq<char>, l1: Seq<char>, n: Seq<char>, l2: Seq<char>, s: Set<int>)
    requires
        blank(b),
        one_line(l1),
        one_line(n),
        one_line(l2),
        l1.len() > 0,
        l1[0] != ' ',
        l1[0] != 'm' || (l1.len() > 6 && (l1[4] != '[' || l1[5] != 'r' || l1[6] != 'b')),
    ensures
        stores_among(b + (l1 + n + l2), s),
{
    let l = l1 + n + l2;
    assert forall|i: int| 0 <= i < l.len() implies #[trigger] l[i] != '\n' by {
        if i < l1.len() {
            assert(l[i] == l1[i]);
        } else if i < l1.len() + n.len() {
            assert(l[i] == n[i - l1.len()]);
        } else {
            assert(l[i] == l2[i - l1.len() - n.len()]);
        }
    }
    assert(l[0] == l1[0]);
    if l1.len() > 6 {
        assert(l[4] == l1[4] && l[5] == l1[5] && l[6] == l1[6]);
    }
    if l.len() <= 10 {
        lemma_stores_short(l, s);
    } else {
        lemma_stores_plain(l, s);
    }
    lemma_stores_indent(b, l, s);
}

/// The check that `rax` holds a number stores in no slot.
#[verifier::spinoff_prover]
#[verifier::rlimit(60)]
pub(crate) proof fn lemma_test_number_stores(code: int, s: Set<int>)
    ensures
        stores_among(test_number_text(code), s),
{
    reveal_strlit("mov rcx, rax\n             and rcx, ");
    reveal_strlit("\n             cmp rcx, 0\n             mov rdi, ");
    reveal_strlit("\n             jne label_error");
    reveal_strlit("mov rcx, rax");
    reveal_strlit("and rcx, ");
    reveal_strlit("cmp rcx, 0");
    reveal_strlit("mov rdi, ");
    reveal_strlit("jne label_error");
    reveal_strlit("             ");
    reveal_strlit("\n");
    let e = Seq::<char>::empty();
    let b = "             "@;
    let n3 = nat_text(3);
    let nc = nat_text(code as nat);
    lemma_nat_one_line(3);
    lemma_nat_one_line(code as nat);
    let parts = seq![
        e + ("mov rcx, rax"@ + e + e),
        b + ("and rcx, "@ + n3 + e),
        b + ("cmp rcx, 0"@ + e + e),
        b + ("mov rdi, "@ + nc + e),
        b + ("jne label_error"@ + e + e),
    ];
    lemma_stores_line(e, "mov rcx, rax"@, e, e, s);
    lemma_stores_line(b, "and rcx, "@, n3, e, s);
    lemma_stores_line(b, "cmp rcx, 0"@, e, e, s);
    lemma_stores_line(b, "mov rdi, "@, nc, e, s);
    lemma_stores_line(b, "jne label_error"@, e, e, s);
    assert forall|i: int| 0 <= i < parts.len() implies stores_among(#[trigger] parts[i], s) by {}
    lemma_stores_parts(parts, s);
    reveal_with_fuel(join_lines, 6);
    assert(join_lines(parts) =~= test_number_text(code));
}

/// The code of a number stores in no slot beyond those of its parts and its own.
#[verifier::spinoff_prover]
#[verifier::rlimit(60)]
pub(crate) proof fn lemma_num_stores(v: int, s: Set<int>)
    ensures
        stores_among("mov rax, "@ + int_text(v), s),
{
    reveal_strlit(":");
    reveal_strlit("\n");
    reveal_strlit("_");
    reveal_strlit("mov rax, ");
    let e = Seq::<char>::empty();
    lemma_int_one_line(v);
    let parts = seq![e + ("mov rax, "@ + int_text(v) + e)];
    lemma_stores_line(e, "mov rax, "@, int_text(v), e, s);
    assert forall|i: int| 0 <= i < parts.len() implies stores_among(#[trigger] parts[i], s) by {}
    lemma_stores_parts(parts, s);
    reveal_with_fuel(join_lines, 2);
    assert(join_lines(parts) =~= "mov rax, "@ + int_text(v));
}

/// The code of `add1` stores in no slot beyond those of its parts and its own.
#[verifier::spinoff_prover]
#[verifier::rlimit(60)]
pub(crate) proof fn lemma_add1_stores(c: Seq<char>, s: Set<int>)
    requires
        stores_among(c, s),
    ensures
        stores_among(c + "\nadd rax, 2"@, s),
{
    reveal_strlit(":");
    reveal_strlit("\n");
    reveal_strlit("\nadd rax, 2");
    reveal_strlit("_");
    reveal_strlit("add rax, 2");
    let e = Seq::<char>::empty();
    let parts = seq![c, e + ("add rax, 2"@ + e + e)];
    lemma_stores_line(e, "add rax, 2"@, e, e, s);
    assert forall|i: int| 0 <= i < parts.len() implies stores_among(#[trigger] parts[i], s) by {}
    lemma_stores_parts(parts, s);
    reveal_with_fuel(join_lines, 3);
    assert(join_lines(parts) =~= c + "\nadd rax, 2"@);
}

/// The code of `sub1` stores in no slot beyond those of its parts and its own.
#[verifier::spinoff_prover]
#[verifier::rlimit(60)]
pub(crate) proof fn lemma_sub1_stores(c: Seq<char>, s: Set<int>)
    requires
        stores_among(c, s),
    ensures
        stores_among(c + "\nsub rax, 2"@, s),
{
    reveal_strlit(":");
    reveal_strlit("\n");
    reveal_strlit("\nsub rax, 2");
    reveal_strlit("_");
    reveal_strlit("sub rax, 2");
    let e = Seq::<char>::empty();
    let parts = seq![c, e + ("sub rax, 2"@ + e + e)];
    lemma_stores_line(e, "sub rax, 2"@, e, e, s);
    assert forall|i: int| 0 <= i < parts.len() implies stores_among(#[trigger] parts[i], s) by {}
    lemma_stores_parts(parts, s);
    reveal_with_fuel(join_lines, 3);
    assert(join_lines(parts) =~= c + "\nsub rax, 2"@);
}

/// The code of `negate` stores in no slot beyond those of its parts and its own.
#[verifier::spinoff_prover]
#[verifier::rlimit(60)]
pub(crate) proof fn lemma_neg_stores(c: Seq<char>, s: Set<int>)
    requires
        stores_among(c, s),
    ensures
        stores_among(c + "\nneg rax"@, s),
{
    reveal_strlit(":");
    reveal_strlit("\n");
    reveal_strlit("\nneg rax");
    reveal_strlit("_");
    reveal_strlit("neg rax");
    let e = Seq::<char>::empty();
    let parts = seq![c, e + ("neg rax"@ + e + e)];
    lemma_stores_line(e, "neg rax"@, e, e, s);
    assert forall|i: int| 0 <= i < parts.len() implies stores_among(#[trigger] parts[i], s) by {}
    lemma_stores_parts(parts, s);
    reveal_with_fuel(join_lines, 3);
    assert(join_lines(parts) =~= c + "\nneg rax"@);
}

/// The code of a variable stores in no slot beyond those of its parts and its own.
#[verifier::spinoff_prover]
#[verifier::rlimit(60)]
pub(crate) proof fn lemma_var_stores(v: int, s: Set<int>)
    ensures
        stores_among("mov rax, [rbp - 8*"@ + int_text(v) + "]"@, s),
{
    reveal_strlit(":");
    reveal_strlit("\n");
    reveal_strlit("]");
    reveal_strlit("_");
    reveal_strlit("mov rax, [rbp - 8*");
    let e = Seq::<char>::empty();
    lemma_int_one_line(v);
    let parts = seq![e + ("mov rax, [rbp - 8*"@ + int_text(v) + "]"@)];
    lemma_stores_line(e, "mov rax, [rbp - 8*"@, int_text(v), "]"@, s);
    assert forall|i: int| 0 <= i < parts.len() implies stores_among(#[trigger] parts[i], s) by {}
    lemma_stores_parts(parts, s);
    reveal_with_fuel(join_lines, 2);
    assert(join_lines(parts) =~= "mov rax, [rbp - 8*"@ + int_text(v) + "]"@);
}

/// The code of a `let` stores in no slot beyond those of its parts and its own.
#[verifier::spinoff_prover]
#[verifier::rlimit(60)]
pub(crate) proof fn lemma_let_stores(c1: Seq<char>, c2: Seq<char>, sp: int, s: Set<int>)
    requires
        stores_among(c1, s),
        stores_among(c2, s),
        sp >= 0,
        s.contains(sp),
    ensures
        stores_among(c1 + "\n"@ + ("mov [rbp - 8*"@ + nat_text(sp as nat) + "], rax"@) + "\n"@ + c2, s),
{
    reveal_strlit(":");
    reveal_strlit("\n");
    reveal_strlit("], rax");
    reveal_strlit("_");
    reveal_strlit("mov [rbp - 8*");
    let e = Seq::<char>::empty();
    lemma_nat_one_line(sp as nat);
    let parts = seq![c1, e + ("mov [rbp - 8*"@ + nat_text(sp as nat) + "], rax"@), c2];
    assert(int_text(sp) == nat_text(sp as nat));
    lemma_stores_slot_line(sp, s);
    assert("mov [rbp - 8*"@ + nat_text(sp as nat) + "], rax"@ =~= e + ("mov [rbp - 8*"@ + nat_text(sp as nat) + "], rax"@));
    assert forall|i: int| 0 <= i < parts.len() implies stores_among(#[trigger] parts[i], s) by {}
    lemma_stores_parts(parts, s);
    reveal_with_fuel(join_lines, 4);
    assert(join_lines(parts) =~= c1 + "\n"@ + ("mov [rbp - 8*"@ + nat_text(sp as nat) + "], rax"@) + "\n"@ + c2);
}

/// The code of a product stores in no slot beyond those of its parts and its own.
#[verifier::spinoff_prover]
#[verifier::rlimit(60)]
pub(crate) proof fn lemma_mult_stores(c1: Seq<char>, c2: Seq<char>, sp: int, s: Set<int>)
    requires
        stores_among(c1, s),
        stores_among(c2, s),
        sp >= 0,
        s.contains(sp),
    ensures
        stores_among(c1 + "\n                 "@ + test_number_text(99) + "\n                 mov [rbp - "@ + nat_text((8 * sp) as nat) + "], rax\n                 "@ + c2 + "\n                 "@ + test_number_text(33) + "\n                 sar rax, 1\n                 imul rax, [rbp - "@ + nat_text((8 * sp) as nat) + "]\n                "@, s),
{
    reveal_strlit("                ");
    reveal_strlit("                 ");
    reveal_strlit(":");
    reveal_strlit("\n");
    reveal_strlit("\n                 ");
    reveal_strlit("\n                 mov [rbp - ");
    reveal_strlit("\n                 sar rax, 1\n                 imul rax, [rbp - ");
    reveal_strlit("]");
    reveal_strlit("], rax");
    reveal_strlit("], rax\n                 ");
    reveal_strlit("]\n                ");
    reveal_strlit("_");
    reveal_strlit("imul rax, [rbp - ");
    reveal_strlit("mov [rbp - ");
    reveal_strlit("sar rax, 1");
    let e = Seq::<char>::empty();
    lemma_nat_one_line((8 * sp) as nat);
    let parts = seq![
        c1,
        "                 "@ + test_number_text(99),
        "                 "@ + ("mov [rbp - "@ + nat_text((8 * sp) as nat) + "], rax"@),
        "                 "@ + c2,
        "                 "@ + test_number_text(33),
        "                 "@ + ("sar rax, 1"@ + e + e),
        "                 "@ + ("imul rax, [rbp - "@ + nat_text((8 * sp) as nat) + "]"@),
        "                "@,
    ];
    lemma_test_number_stores(99, s);
    lemma_stores_indent("                 "@, test_number_text(99), s);
    lemma_stores_scaled_line(sp, s);
    lemma_stores_indent("                 "@, "mov [rbp - "@ + nat_text((8 * sp) as nat) + "], rax"@, s);
    lemma_stores_indent("                 "@, c2, s);
    lemma_test_number_stores(33, s);
    lemma_stores_indent("                 "@, test_number_text(33), s);
    lemma_stores_line("                 "@, "sar rax, 1"@, e, e, s);
    lemma_stores_line("                 "@, "imul rax, [rbp - "@, nat_text((8 * sp) as nat), "]"@, s);
    lemma_stores_blank("                "@, s);
    assert forall|i: int| 0 <= i < parts.len() implies stores_among(#[trigger] parts[i], s) by {}
    lemma_stores_parts(parts, s);
    reveal_with_fuel(join_lines, 9);
    assert(join_lines(parts) =~= c1 + "\n                 "@ + test_number_text(99) + "\n                 mov [rbp - "@ + nat_text((8 * sp) as nat) + "], rax\n                 "@ + c2 + "\n                 "@ + test_number_text(33) + "\n                 sar rax, 1\n                 imul rax, [rbp - "@ + nat_text((8 * sp) as nat) + "]\n                "@);
}

/// The code of a conditional stores in no slot beyond those of its parts and its own.
#[verifier::spinoff_prover]
#[verifier::rlimit(60)]
pub(crate) proof fn lemma_if_stores(c1: Seq<char>, c2: Seq<char>, c3: Seq<char>, k3: int, s: Set<int>)
    requires
        stores_among(c1, s),
        stores_among(c2, s),
        stores_among(c3, s),
    ensures
        stores_among(c1 + "\n                      cmp rax, "@ + nat_text(FALSE as nat) + "\n                      je label_else_"@ + int_text(k3) + "\n                      "@ + c2 + "\n                      jmp label_exit_"@ + int_text(k3) + "\n                    label_else_"@ + int_text(k3) + ":\n                      "@ + c3 + "\n                    label_exit_"@ + int_text(k3) + ":"@, s),
{
    reveal_strlit("                    ");
    reveal_strlit("                      ");
    reveal_strlit(":");
    reveal_strlit(":\n                      ");
    reveal_strlit("\n");
    reveal_strlit("\n                      ");
    reveal_strlit("\n                      cmp rax, ");
    reveal_strlit("\n                      je label_else_");
    reveal_strlit("\n                      jmp label_exit_");
    reveal_strlit("\n                    label_else_");
    reveal_strlit("\n                    label_exit_");
    reveal_strlit("_");
    reveal_strlit("cmp rax, ");
    reveal_strlit("je label_else_");
    reveal_strlit("jmp label_exit_");
    reveal_strlit("label_else");
    reveal_strlit("label_exit");
    let e = Seq::<char>::empty();
    lemma_nat_one_line(FALSE as nat);
    lemma_int_one_line(k3);
    let parts = seq![
        c1,
        "                      "@ + ("cmp rax, "@ + nat_text(FALSE as nat) + e),
        "                      "@ + ("je label_else_"@ + int_text(k3) + e),
        "                      "@ + c2,
        "                      "@ + ("jmp label_exit_"@ + int_text(k3) + e),
        "                    "@ + (label_text("label_else"@, k3) + ":"@ + e),
        "                      "@ + c3,
        "                    "@ + (label_text("label_exit"@, k3) + ":"@ + e),
    ];
    lemma_stores_line("                      "@, "cmp rax, "@, nat_text(FALSE as nat), e, s);
    lemma_stores_line("                      "@, "je label_else_"@, int_text(k3), e, s);
    lemma_stores_indent("                      "@, c2, s);
    lemma_stores_line("                      "@, "jmp label_exit_"@, int_text(k3), e, s);
    lemma_label_head("label_else"@, k3);
    lemma_stores_line("                    "@, label_text("label_else"@, k3), ":"@, e, s);
    lemma_stores_indent("                      "@, c3, s);
    lemma_label_head("label_exit"@, k3);
    lemma_stores_line("                    "@, label_text("label_exit"@, k3), ":"@, e, s);
    assert forall|i: int| 0 <= i < parts.len() implies stores_among(#[trigger] parts[i], s) by {}
    lemma_stores_parts(parts, s);
    reveal_with_fuel(join_lines, 9);
    assert(join_lines(parts) =~= c1 + "\n                      cmp rax, "@ + nat_text(FALSE as nat) + "\n                      je label_else_"@ + int_text(k3) + "\n                      "@ + c2 + "\n                      jmp label_exit_"@ + int_text(k3) + "\n                    label_else_"@ + int_text(k3) + ":\n                      "@ + c3 + "\n                    label_exit_"@ + int_text(k3) + ":"@);
}

/// The code of a comparison stores in no slot beyond those of its parts and its own.
#[verifier::spinoff_prover]
#[verifier::rlimit(60)]
pub(crate) proof fn lemma_eq_stores(c1: Seq<char>, c2: Seq<char>, sp: int, k: int, s: Set<int>)
    requires
        stores_among(c1, s),
        stores_among(c2, s),
        sp >= 0,
        s.contains(sp),
    ensures
        stores_among(c1 + "\n                 mov [rbp - 8*"@ + nat_text(sp as nat) + "], rax\n                 "@ + c2 + "\n                 cmp rax, [rbp - 8*"@ + nat_text(sp as nat) + "]\n                 mov rax, "@ + nat_text(FALSE as nat) + "\n                 jne "@ + label_text("eq_exit"@, k) + "\n                 mov rax, "@ + nat_text(TRUE as nat) + "\n               "@ + label_text("eq_exit"@, k) + ":\n                "@, s),
{
    reveal_strlit("               ");
    reveal_strlit("                ");
    reveal_strlit("                 ");
    reveal_strlit(":");
    reveal_strlit(":\n                ");
    reveal_strlit("\n");
    reveal_strlit("\n               ");
    reveal_strlit("\n                 cmp rax, [rbp - 8*");
    reveal_strlit("\n                 jne ");
    reveal_strlit("\n                 mov [rbp - 8*");
    reveal_strlit("\n                 mov rax, ");
    reveal_strlit("]");
    reveal_strlit("], rax");
    reveal_strlit("], rax\n                 ");
    reveal_strlit("]\n                 mov rax, ");
    reveal_strlit("_");
    reveal_strlit("cmp rax, [rbp - 8*");
    reveal_strlit("eq_exit");
    reveal_strlit("jne ");
    reveal_strlit("mov [rbp - 8*");
    reveal_strlit("mov rax, ");
    let e = Seq::<char>::empty();
    lemma_nat_one_line(sp as nat);
    lemma_nat_one_line(FALSE as nat);
    lemma_nat_one_line(TRUE as nat);
    lemma_label_head("eq_exit"@, k);
    let parts = seq![
        c1,
        "                 "@ + ("mov [rbp - 8*"@ + nat_text(sp as nat) + "], rax"@),
        "                 "@ + c2,
        "                 "@ + ("cmp rax, [rbp - 8*"@ + nat_text(sp as nat) + "]"@),
        "                 "@ + ("mov rax, "@ + nat_text(FALSE as nat) + e),
        "                 "@ + ("jne "@ + label_text("eq_exit"@, k) + e),
        "                 "@ + ("mov rax, "@ + nat_text(TRUE as nat) + e),
        "               "@ + (label_text("eq_exit"@, k) + ":"@ + e),
        "                "@,
    ];
    assert(int_text(sp) == nat_text(sp as nat));
    lemma_stores_slot_line(sp, s);
    lemma_stores_indent("                 "@, "mov [rbp - 8*"@ + nat_text(sp as nat) + "], rax"@, s);
    lemma_stores_indent("                 "@, c2, s);
    lemma_stores_line("                 "@, "cmp rax, [rbp - 8*"@, nat_text(sp as nat), "]"@, s);
    lemma_stores_line("                 "@, "mov rax, "@, nat_text(FALSE as nat), e, s);
    lemma_stores_line("                 "@, "jne "@, label_text("eq_exit"@, k), e, s);
    lemma_stores_line("                 "@, "mov rax, "@, nat_text(TRUE as nat), e, s);
    lemma_label_head("eq_exit"@, k);
    lemma_stores_line("               "@, label_text("eq_exit"@, k), ":"@, e, s);
    lemma_stores_blank("                "@, s);
    assert forall|i: int| 0 <= i < parts.len() implies stores_among(#[trigger] parts[i], s) by {}
    lemma_stores_parts(parts, s);
    reveal_with_fuel(join_lines, 10);
    assert(join_lines(parts) =~= c1 + "\n                 mov [rbp - 8*"@ + nat_text(sp as nat) + "], rax\n                 "@ + c2 + "\n                 cmp rax, [rbp - 8*"@ + nat_text(sp as nat) + "]\n                 mov rax, "@ + nat_text(FALSE as nat) + "\n                 jne "@ + label_text("eq_exit"@, k) + "\n                 mov rax, "@ + nat_text(TRUE as nat) + "\n               "@ + label_text("eq_exit"@, k) + ":\n                "@);
}

/// The code of an assignment stores in no slot beyond those of its parts and its own.
#[verifier::spinoff_prover]
#[verifier::rlimit(60)]
pub(crate) proof fn lemma_assign_stores(c: Seq<char>, v: int, s: Set<int>)
    requires
        stores_among(c, s),
        s.contains(v),
    ensures
        stores_among(c + "\n                     mov [rbp - 8*"@ + int_text(v) + "], rax"@, s),
{
    reveal_strlit("                     ");
    reveal_strlit(":");
    reveal_strlit("\n");
    reveal_strlit("\n                     mov [rbp - 8*");
    reveal_strlit("], rax");
    reveal_strlit("_");
    reveal_strlit("mov [rbp - 8*");
    let e = Seq::<char>::empty();
    lemma_int_one_line(v);
    let parts = seq![c, "                     "@ + ("mov [rbp - 8*"@ + int_text(v) + "], rax"@)];
    lemma_stores_slot_line(v, s);
    lemma_stores_indent("                     "@, "mov [rbp - 8*"@ + int_text(v) + "], rax"@, s);
    assert forall|i: int| 0 <= i < parts.len() implies stores_among(#[trigger] parts[i], s) by {}
    lemma_stores_parts(parts, s);
    reveal_with_fuel(join_lines, 3);
    assert(join_lines(parts) =~= c + "\n                     mov [rbp - 8*"@ + int_text(v) + "], rax"@);
}

/// The code of a loop stores in no slot beyond those of its parts and its own.
#[verifier::spinoff_prover]
#[verifier::rlimit(60)]
pub(crate) proof fn lemma_loop_stores(c: Seq<char>, k: int, s: Set<int>)
    requires
        stores_among(c, s),
    ensures
        stores_among(label_text("loop_start"@, k) + ":\n                        "@ + c + "\n                        jmp "@ + label_text("loop_start"@, k) + "\n                     "@ + label_text("loop_exit"@, k) + ":"@, s),
{
    reveal_strlit("                     ");
    reveal_strlit("                        ");
    reveal_strlit(":");
    reveal_strlit(":\n                        ");
    reveal_strlit("\n");
    reveal_strlit("\n                     ");
    reveal_strlit("\n                        jmp ");
    reveal_strlit("_");
    reveal_strlit("jmp ");
    reveal_strlit("loop_exit");
    reveal_strlit("loop_start");
    let e = Seq::<char>::empty();
    lemma_label_head("loop_start"@, k);
    let parts = seq![
        e + (label_text("loop_start"@, k) + ":"@ + e),
        "                        "@ + c,
        "                        "@ + ("jmp "@ + label_text("loop_start"@, k) + e),
        "                     "@ + (label_text("loop_exit"@, k) + ":"@ + e),
    ];
    lemma_label_head("loop_start"@, k);
    lemma_stores_line(e, label_text("loop_start"@, k), ":"@, e, s);
    lemma_stores_indent("                        "@, c, s);
    lemma_stores_line("                        "@, "jmp "@, label_text("loop_start"@, k), e, s);
    lemma_label_head("loop_exit"@, k);
    lemma_stores_line("                     "@, label_text("loop_exit"@, k), ":"@, e, s);
    assert forall|i: int| 0 <= i < parts.len() implies stores_among(#[trigger] parts[i], s) by {}
    lemma_stores_parts(parts, s);
    reveal_with_fuel(join_lines, 5);
    assert(join_lines(parts) =~= label_text("loop_start"@, k) + ":\n                        "@ + c + "\n                        jmp "@ + label_text("loop_start"@, k) + "\n                     "@ + label_text("loop_exit"@, k) + ":"@);
}

/// The code of a `break` stores in no slot beyond those of its parts and its own.
#[verifier::spinoff_prover]
#[verifier::rlimit(60)]
pub(crate) proof fn lemma_break_stores(c: Seq<char>, brk: Seq<char>, s: Set<int>)
    requires
        stores_among(c, s),
        one_line(brk),
    ensures
        stores_among(c + "\n                     jmp "@ + brk, s),
{
    reveal_strlit("                     ");
    reveal_strlit(":");
    reveal_strlit("\n");
    reveal_strlit("\n                     jmp ");
    reveal_strlit("_");
    reveal_strlit("jmp ");
    let e = Seq::<char>::empty();
    let parts = seq![c, "                     "@ + ("jmp "@ + brk + e)];
    lemma_stores_line("                     "@, "jmp "@, brk, e, s);
    assert forall|i: int| 0 <= i < parts.len() implies stores_among(#[trigger] parts[i], s) by {}
    lemma_stores_parts(parts, s);
    reveal_with_fuel(join_lines, 3);
    assert(join_lines(parts) =~= c + "\n                     jmp "@ + brk);
}

/// The code of a `print` stores in no slot beyond those of its parts and its own.
#[verifier::spinoff_prover]
#[verifier::rlimit(60)]
pub(crate) proof fn lemma_print_stores(c: Seq<char>, s: Set<int>)
    requires
        stores_among(c, s),
    ensures
        stores_among(c + "\n                     mov rdi, rax\n                     call snek_print\n                    "@, s),
{
    reveal_strlit("                    ");
    reveal_strlit("                     ");
    reveal_strlit(":");
    reveal_strlit("\n");
    reveal_strlit("\n                     mov rdi, rax\n                     call snek_print\n                    ");
    reveal_strlit("_");
    reveal_strlit("call snek_print");
    reveal_strlit("mov rdi, rax");
    let e = Seq::<char>::empty();
    let parts = seq![
        c,
        "                     "@ + ("mov rdi, rax"@ + e + e),
        "                     "@ + ("call snek_print"@ + e + e),
        "                    "@,
    ];
    lemma_stores_line("                     "@, "mov rdi, rax"@, e, e, s);
    lemma_stores_line("                     "@, "call snek_print"@, e, e, s);
    lemma_stores_blank("                    "@, s);
    assert forall|i: int| 0 <= i < parts.len() implies stores_among(#[trigger] parts[i], s) by {}
    lemma_stores_parts(parts, s);
    reveal_with_fuel(join_lines, 5);
    assert(join_lines(parts) =~= c + "\n                     mov rdi, rax\n                     call snek_print\n                    "@);
}

/// The code of a call of one argument stores in no slot beyond those of its parts and its own.
#[verifier::spinoff_prover]
#[verifier::rlimit(60)]
pub(crate) proof fn lemma_call1_stores(c: Seq<char>, f: Seq<char>, s: Set<int>)
    requires
        stores_among(c, s),
        one_line(f),
    ensures
        stores_among(c + "\n                 push rax\n                 call fun_start_"@ + f + "\n                 add rsp, 8*1\n                "@, s),
{
    reveal_strlit("                ");
    reveal_strlit("                 ");
    reveal_strlit(":");
    reveal_strlit("\n");
    reveal_strlit("\n                 add rsp, 8*1\n                ");
    reveal_strlit("\n                 push rax\n                 call fun_start_");
    reveal_strlit("_");
    reveal_strlit("add rsp, 8*1");
    reveal_strlit("call fun_start_");
    reveal_strlit("push rax");
    let e = Seq::<char>::empty();
    let parts = seq![
        c,
        "                 "@ + ("push rax"@ + e + e),
        "                 "@ + ("call fun_start_"@ + f + e),
        "                 "@ + ("add rsp, 8*1"@ + e + e),
        "                "@,
    ];
    lemma_stores_line("                 "@, "push rax"@, e, e, s);
    lemma_stores_line("                 "@, "call fun_start_"@, f, e, s);
    lemma_stores_line("                 "@, "add rsp, 8*1"@, e, e, s);
    lemma_stores_blank("                "@, s);
    assert forall|i: int| 0 <= i < parts.len() implies stores_among(#[trigger] parts[i], s) by {}
    lemma_stores_parts(parts, s);
    reveal_with_fuel(join_lines, 6);
    assert(join_lines(parts) =~= c + "\n                 push rax\n                 call fun_start_"@ + f + "\n                 add rsp, 8*1\n                "@);
}

/// The code of a call of two arguments stores in no slot beyond those of its parts and its own.
#[verifier::spinoff_prover]
#[verifier::rlimit(60)]
pub(crate) proof fn lemma_call2_stores(c1: Seq<char>, c2: Seq<char>, sp: int, f: Seq<char>, s: Set<int>)
    requires
        stores_among(c1, s),
        stores_among(c2, s),
        one_line(f),
        sp >= 0,
        s.contains(sp),
    ensures
        stores_among(c1 + "\n                 mov [rbp - 8*"@ + nat_text(sp as nat) + "], rax\n                 "@ + c2 + "\n                 push rax\n                 mov rcx, [rbp - 8*"@ + nat_text(sp as nat) + "]\n                 push rcx\n                 call fun_start_"@ + f + "\n                 add rsp, 8*2\n                "@, s),
{
    reveal_strlit("                ");
    reveal_strlit("                 ");
    reveal_strlit(":");
    reveal_strlit("\n");
    reveal_strlit("\n                 add rsp, 8*2\n                ");
    reveal_strlit("\n                 mov [rbp - 8*");
    reveal_strlit("\n                 push rax\n                 mov rcx, [rbp - 8*");
    reveal_strlit("]");
    reveal_strlit("], rax");
    reveal_strlit("], rax\n                 ");
    reveal_strlit("]\n                 push rcx\n                 call fun_start_");
    reveal_strlit("_");
    reveal_strlit("add rsp, 8*2");
    reveal_strlit("call fun_start_");
    reveal_strlit("mov [rbp - 8*");
    reveal_strlit("mov rcx, [rbp - 8*");
    reveal_strlit("push rax");
    reveal_strlit("push rcx");
    let e = Seq::<char>::empty();
    lemma_nat_one_line(sp as nat);
    let parts = seq![
        c1,
        "                 "@ + ("mov [rbp - 8*"@ + nat_text(sp as nat) + "], rax"@),
        "                 "@ + c2,
        "                 "@ + ("push rax"@ + e + e),
        "                 "@ + ("mov rcx, [rbp - 8*"@ + nat_text(sp as nat) + "]"@),
        "                 "@ + ("push rcx"@ + e + e),
        "                 "@ + ("call fun_start_"@ + f + e),
        "                 "@ + ("add rsp, 8*2"@ + e + e),
        "                "@,
    ];
    assert(int_text(sp) == nat_text(sp as nat));
    lemma_stores_slot_line(sp, s);
    lemma_stores_indent("                 "@, "mov [rbp - 8*"@ + nat_text(sp as nat) + "], rax"@, s);
    lemma_stores_indent("                 "@, c2, s);
    lemma_stores_line("                 "@, "push rax"@, e, e, s);
    lemma_stores_line("                 "@, "mov rcx, [rbp - 8*"@, nat_text(sp as nat), "]"@, s);
    lemma_stores_line("                 "@, "push rcx"@, e, e, s);
    lemma_stores_line("                 "@, "call fun_start_"@, f, e, s);
    lemma_stores_line("                 "@, "add rsp, 8*2"@, e, e, s);
    lemma_stores_blank("                "@, s);
    assert forall|i: int| 0 <= i < parts.len() implies stores_among(#[trigger] parts[i], s) by {}
    lemma_stores_parts(parts, s);
    reveal_with_fuel(join_lines, 10);
    assert(join_lines(parts) =~= c1 + "\n                 mov [rbp - 8*"@ + nat_text(sp as nat) + "], rax\n                 "@ + c2 + "\n                 push rax\n                 mov rcx, [rbp - 8*"@ + nat_text(sp as nat) + "]\n                 push rcx\n                 call fun_start_"@ + f + "\n                 add rsp, 8*2\n                "@);
}

/// The code of a pair stores in no slot beyond those of its parts and its own.
#[verifier::spinoff_prover]
#[verifier::rlimit(60)]
pub(crate) proof fn lemma_vec_stores(c1: Seq<char>, c2: Seq<char>, sp: int, s: Set<int>)
    requires
        stores_among(c1, s),
        stores_among(c2, s),
        sp >= 0,
        s.contains(sp),
    ensures
        stores_among(c1 + "\n                 mov [rbp - 8*"@ + nat_text(sp as nat) + "], rax\n                 "@ + c2 + "\n                 mov rcx, [rbp - 8*"@ + nat_text(sp as nat) + "]\n                 mov [r11], rcx\n                 mov [r11 + 8], rax\n                 mov rax, r11\n                 add rax, 1\n                 add r11, 16"@, s),
{
    reveal_strlit("                 ");
    reveal_strlit(":");
    reveal_strlit("\n");
    reveal_strlit("\n                 mov [rbp - 8*");
    reveal_strlit("\n                 mov rcx, [rbp - 8*");
    reveal_strlit("]");
    reveal_strlit("], rax");
    reveal_strlit("], rax\n                 ");
    reveal_strlit("]\n                 mov [r11], rcx\n                 mov [r11 + 8], rax\n                 mov rax, r11\n                 add rax, 1\n                 add r11, 16");
    reveal_strlit("_");
    reveal_strlit("add r11, 16");
    reveal_strlit("add rax, 1");
    reveal_strlit("mov [r11 + 8], rax");
    reveal_strlit("mov [r11], rcx");
    reveal_strlit("mov [rbp - 8*");
    reveal_strlit("mov rax, r11");
    reveal_strlit("mov rcx, [rbp - 8*");
    let e = Seq::<char>::empty();
    lemma_nat_one_line(sp as nat);
    let parts = seq![
        c1,
        "                 "@ + ("mov [rbp - 8*"@ + nat_text(sp as nat) + "], rax"@),
        "                 "@ + c2,
        "                 "@ + ("mov rcx, [rbp - 8*"@ + nat_text(sp as nat) + "]"@),
        "                 "@ + ("mov [r11], rcx"@ + e + e),
        "                 "@ + ("mov [r11 + 8], rax"@ + e + e),
        "                 "@ + ("mov rax, r11"@ + e + e),
        "                 "@ + ("add rax, 1"@ + e + e),
        "                 "@ + ("add r11, 16"@ + e + e),
    ];
    assert(int_text(sp) == nat_text(sp as nat));
    lemma_stores_slot_line(sp, s);
    lemma_stores_indent("                 "@, "mov [rbp - 8*"@ + nat_text(sp as nat) + "], rax"@, s);
    lemma_stores_indent("                 "@, c2, s);
    lemma_stores_line("                 "@, "mov rcx, [rbp - 8*"@, nat_text(sp as nat), "]"@, s);
    lemma_stores_line("                 "@, "mov [r11], rcx"@, e, e, s);
    lemma_stores_line("                 "@, "mov [r11 + 8], rax"@, e, e, s);
    lemma_stores_line("                 "@, "mov rax, r11"@, e, e, s);
    lemma_stores_line("                 "@, "add rax, 1"@, e, e, s);
    lemma_stores_line("                 "@, "add r11, 16"@, e, e, s);
    assert forall|i: int| 0 <= i < parts.len() implies stores_among(#[trigger] parts[i], s) by {}
    lemma_stores_parts(parts, s);
    reveal_with_fuel(join_lines, 10);
    assert(join_lines(parts) =~= c1 + "\n                 mov [rbp - 8*"@ + nat_text(sp as nat) + "], rax\n                 "@ + c2 + "\n                 mov rcx, [rbp - 8*"@ + nat_text(sp as nat) + "]\n                 mov [r11], rcx\n                 mov [r11 + 8], rax\n                 mov rax, r11\n                 add rax, 1\n                 add r11, 16"@);
}

/// The code of `input` stores in no slot beyond those of its parts and its own.
#[verifier::spinoff_prover]
#[verifier::rlimit(60)]
pub(crate) proof fn lemma_input_stores(s: Set<int>)
    ensures
        stores_among("mov rax, [rbp - 8]"@, s),
{
    reveal_strlit(":");
    reveal_strlit("\n");
    reveal_strlit("_");
    reveal_strlit("mov rax, [rbp - 8]");
    let e = Seq::<char>::empty();
    let parts = seq![e + ("mov rax, [rbp - 8]"@ + e + e)];
    lemma_stores_line(e, "mov rax, [rbp - 8]"@, e, e, s);
    assert forall|i: int| 0 <= i < parts.len() implies stores_among(#[trigger] parts[i], s) by {}
    lemma_stores_parts(parts, s);
    reveal_with_fuel(join_lines, 2);
    assert(join_lines(parts) =~= "mov rax, [rbp - 8]"@);
}

/// The code of `true` stores in no slot beyond those of its parts and its own.
#[verifier::spinoff_prover]
#[verifier::rlimit(60)]
pub(crate) proof fn lemma_true_stores(s: Set<int>)
    ensures
        stores_among("mov rax, "@ + nat_text(TRUE as nat), s),
{
    reveal_strlit(":");
    reveal_strlit("\n");
    reveal_strlit("_");
    reveal_strlit("mov rax, ");
    let e = Seq::<char>::empty();
    lemma_nat_one_line(TRUE as nat);
    let parts = seq![e + ("mov rax, "@ + nat_text(TRUE as nat) + e)];
    lemma_stores_line(e, "mov rax, "@, nat_text(TRUE as nat), e, s);
    assert forall|i: int| 0 <= i < parts.len() implies stores_among(#[trigger] parts[i], s) by {}
    lemma_stores_parts(parts, s);
    reveal_with_fuel(join_lines, 2);
    assert(join_lines(parts) =~= "mov rax, "@ + nat_text(TRUE as nat));
}

/// The code of `false` stores in no slot beyond those of its parts and its own.
#[verifier::spinoff_prover]
#[verifier::rlimit(60)]
pub(crate) proof fn lemma_false_stores(s: Set<int>)
    ensures
        stores_among("mov rax, "@ + nat_text(FALSE as nat), s),
{
    reveal_strlit(":");
    reveal_strlit("\n");
    reveal_strlit("_");
    reveal_strlit("mov rax, ");
    let e = Seq::<char>::empty();
    lemma_nat_one_line(FALSE as nat);
    let parts = seq![e + ("mov rax, "@ + nat_text(FALSE as nat) + e)];
    lemma_stores_line(e, "mov rax, "@, nat_text(FALSE as nat), e, s);
    assert forall|i: int| 0 <= i < parts.len() implies stores_among(#[trigger] parts[i], s) by {}
    lemma_stores_parts(parts, s);
    reveal_with_fuel(join_lines, 2);
    assert(join_lines(parts) =~= "mov rax, "@ + nat_text(FALSE as nat));
}

/// The code of a sum stores in no slot beyond those of its parts and its own.
#[verifier::spinoff_prover]
#[verifier::rlimit(60)]
pub(crate) proof fn lemma_plus_stores(c1: Seq<char>, c2: Seq<char>, sp: int, s: Set<int>)
    requires
        stores_among(c1, s),
        stores_among(c2, s),
        sp >= 0,
        s.contains(sp),
    ensures
        stores_among(c1 + "\n                 "@ + test_number_text(99) + "\n                 mov [rbp - 8*"@ + nat_text(sp as nat) + "], rax\n                 "@ + c2 + "\n                 "@ + test_number_text(33) + "\n                 add rax, [rbp - 8*"@ + nat_text(sp as nat) + "]\n                "@, s),
{
    reveal_strlit("                ");
    reveal_strlit("                 ");
    reveal_strlit(":");
    reveal_strlit("\n");
    reveal_strlit("\n                 ");
    reveal_strlit("\n                 add rax, [rbp - 8*");
    reveal_strlit("\n                 mov [rbp - 8*");
    reveal_strlit("]");
    reveal_strlit("], rax");
    reveal_strlit("], rax\n                 ");
    reveal_strlit("]\n                ");
    reveal_strlit("_");
    reveal_strlit("add rax, [rbp - 8*");
    reveal_strlit("mov [rbp - 8*");
    let e = Seq::<char>::empty();
    lemma_nat_one_line(sp as nat);
    let parts = seq![
        c1,
        "                 "@ + test_number_text(99),
        "                 "@ + ("mov [rbp - 8*"@ + nat_text(sp as nat) + "], rax"@),
        "                 "@ + c2,
        "                 "@ + test_number_text(33),
        "                 "@ + ("add rax, [rbp - 8*"@ + nat_text(sp as nat) + "]"@),
        "                "@,
    ];
    lemma_test_number_stores(99, s);
    lemma_stores_indent("                 "@, test_number_text(99), s);
    assert(int_text(sp) == nat_text(sp as nat));
    lemma_stores_slot_line(sp, s);
    lemma_stores_indent("                 "@, "mov [rbp - 8*"@ + nat_text(sp as nat) + "], rax"@, s);
    lemma_stores_indent("                 "@, c2, s);
    lemma_test_number_stores(33, s);
    lemma_stores_indent("                 "@, test_number_text(33), s);
    lemma_stores_line("                 "@, "add rax, [rbp - 8*"@, nat_text(sp as nat), "]"@, s);
    lemma_stores_blank("                "@, s);
    assert forall|i: int| 0 <= i < parts.len() implies stores_among(#[trigger] parts[i], s) by {}
    lemma_stores_parts(parts, s);
    reveal_with_fuel(join_lines, 8);
    assert(join_lines(parts) =~= c1 + "\n                 "@ + test_number_text(99) + "\n                 mov [rbp - 8*"@ + nat_text(sp as nat) + "], rax\n                 "@ + c2 + "\n                 "@ + test_number_text(33) + "\n                 add rax, [rbp - 8*"@ + nat_text(sp as nat) + "]\n                "@);
}

} // verus!
