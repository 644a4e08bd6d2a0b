//! The labels that the text of a code defines, read line by line: a line
//! that is, blanks around it aside, `P_k:` for one of the label prefixes
//! of the code generator defines label number `k`.
use vstd::prelude::*;
use crate::lines::{
    blank, lemma_int_text_chars, lemma_lines_join, lemma_lines_nonempty, lemma_lines_prefix,
    lemma_lines_single, lemma_nat_text_chars, lines, one_line, spaces,
};
use crate::text::{int_text, join_lines, lemma_int_text_injective, nat_text};
use super::compiler::{label_text, test_number_text, FALSE, TRUE};

verus! {

/// The prefixes of the numbered labels that the code generator defines.
pub open spec fn label_prefix(p: Seq<char>) -> bool {
    p == "label_else"@ || p == "label_exit"@ || p == "eq_exit"@ || p == "loop_start"@ || p
        == "loop_exit"@
}

/// Whether the line `l`, blanks around it aside, is `P_k:` for a label
/// prefix `P`.
pub open spec fn defines_label(l: Seq<char>, k: int) -> bool {
    exists|p: Seq<char>, a: nat, b: nat|
        #![trigger label_text(p, k), spaces(a), spaces(b)]
        label_prefix(p) && l == spaces(a) + label_text(p, k) + ":"@ + spaces(b)
}

/// The label numbers that the lines of `t` define.
pub open spec fn text_labels(t: Seq<char>) -> Set<int> {
    Set::new(
        |k: int| exists|i: int| 0 <= i < lines(t).len() && defines_label(#[trigger] lines(t)[i], k),
    )
}

/// Whether every label number that a line of `t` defines is in `s`.
pub open spec fn labels_among(t: Seq<char>, s: Set<int>) -> bool {
    forall|i: int, k: int|
        0 <= i < lines(t).len() && #[trigger] defines_label(lines(t)[i], k) ==> s.contains(k)
}

pub(crate) proof fn lemma_label_head(p: Seq<char>, k: int)
    requires
        label_prefix(p),
    ensures
        label_text(p, k).len() > 1,
        label_text(p, k)[0] == 'l' || label_text(p, k)[0] == 'e',
        one_line(label_text(p, k)),
        label_text(p, k).last() != ' ',
        label_text(p, k).last() != ':',
{
    reveal_strlit("label_else");
    reveal_strlit("label_exit");
    reveal_strlit("eq_exit");
    reveal_strlit("loop_start");
    reveal_strlit("loop_exit");
    reveal_strlit("_");
    lemma_int_text_chars(k);
    let t = label_text(p, k);
    lemma_int_text_nonempty(k);
    assert(t[0] == p[0]);
    assert forall|i: int| 0 <= i < t.len() implies #[trigger] t[i] != '\n' by {
        if i < p.len() {
            assert(t[i] == p[i]);
        } else if i == p.len() {
            assert(t[i] == '_');
        } else {
            assert(t[i] == int_text(k)[i - p.len() - 1]);
        }
    }
    assert(t.last() == int_text(k)[int_text(k).len() - 1]);
}

pub(crate) proof fn lemma_int_text_nonempty(k: int)
    ensures
        int_text(k).len() >= 1,
{
    if k < 0 {
        assert(int_text(k).len() >= 1);
    } else {
        lemma_nat_len(k as nat);
    }
}

pub(crate) proof fn lemma_nat_len(n: nat)
    ensures
        nat_text(n).len() >= 1,
    decreases n,
{
    if n >= 10 {
        lemma_nat_len(n / 10);
    }
}

/// Labels with label prefixes are equal only for equal numbers.
pub(crate) proof fn lemma_label_text_injective(p: Seq<char>, k: int, q: Seq<char>, j: int)
    requires
        label_prefix(p),
        label_prefix(q),
        label_text(p, k) == label_text(q, j),
    ensures
        k == j,
{
    reveal_strlit("label_else");
    reveal_strlit("label_exit");
    reveal_strlit("eq_exit");
    reveal_strlit("loop_start");
    reveal_strlit("loop_exit");
    reveal_strlit("_");
    let t = label_text(p, k);
    let u = label_text(q, j);
    assert(t[0] == p[0] && t[1] == p[1] && t[5] == p[5] && t[6] == p[6] && t[7] == if p.len() > 7 {
        p[7]
    } else {
        '_'
    });
    assert(u[0] == q[0] && u[1] == q[1] && u[5] == q[5] && u[6] == q[6] && u[7] == if q.len() > 7 {
        q[7]
    } else {
        '_'
    });
    assert(p == q);
    assert(t.skip(p.len() as int + 1) =~= int_text(k));
    assert(u.skip(q.len() as int + 1) =~= int_text(j));
    lemma_int_text_injective(k, j);
}

/// A blank text put in front of a line does not change which label the
/// line defines.
pub(crate) proof fn lemma_defines_unindent(x: Seq<char>, l: Seq<char>, k: int)
    requires
        blank(x),
        defines_label(x + l, k),
    ensures
        defines_label(l, k),
{
    let (p, a, b) = choose|p: Seq<char>, a: nat, b: nat|
        #![trigger label_text(p, k), spaces(a), spaces(b)]
        label_prefix(p) && x + l == spaces(a) + label_text(p, k) + ":"@ + spaces(b);
    lemma_label_head(p, k);
    let whole = x + l;
    if a < x.len() {
        assert(whole[a as int] == x[a as int]);
        assert(whole[a as int] == label_text(p, k)[0]);
        assert(false);
    }
    let a2 = (a - x.len()) as nat;
    assert(l =~= whole.skip(x.len() as int));
    assert(l =~= spaces(a2) + label_text(p, k) + ":"@ + spaces(b));
}

/// The lines of `a`, a newline and `b` define the labels of both.
pub(crate) proof fn lemma_among_join(a: Seq<char>, b: Seq<char>, s: Set<int>)
    requires
        labels_among(a, s),
        labels_among(b, s),
    ensures
        labels_among(a + "\n"@ + b, s),
{
    lemma_lines_join(a, b);
    let la = lines(a);
    let lb = lines(b);
    assert forall|i: int, k: int|
        0 <= i < lines(a + "\n"@ + b).len() && #[trigger] defines_label(
            lines(a + "\n"@ + b)[i],
            k,
        ) implies s.contains(k) by {
        if i < la.len() {
            assert(lines(a + "\n"@ + b)[i] == la[i]);
        } else {
            assert(lines(a + "\n"@ + b)[i] == lb[i - la.len()]);
        }
    }
}

/// Blanks in front of a text change none of the labels it defines.
pub(crate) proof fn lemma_among_indent(x: Seq<char>, c: Seq<char>, s: Set<int>)
    requires
        blank(x),
        labels_among(c, s),
    ensures
        labels_among(x + c, s),
{
    assert(one_line(x));
    lemma_lines_prefix(x, c);
    lemma_lines_nonempty(c);
    assert forall|i: int, k: int|
        0 <= i < lines(x + c).len() && #[trigger] defines_label(lines(x + c)[i], k) implies s.contains(
        k,
    ) by {
        if i == 0 {
            lemma_defines_unindent(x, lines(c)[0], k);
        } else {
            assert(lines(x + c)[i] == lines(c)[i]);
        }
    }
}

/// A line that starts with a character other than a blank or the first
/// letter of a label prefix defines no label.
pub(crate) proof fn lemma_among_plain(l: Seq<char>, s: Set<int>)
    requires
        one_line(l),
        l.len() > 0,
        l[0] != ' ' && l[0] != 'l' && l[0] != 'e',
    ensures
        labels_among(l, s),
{
    lemma_lines_single(l);
    assert forall|i: int, k: int|
        0 <= i < lines(l).len() && #[trigger] defines_label(lines(l)[i], k) implies s.contains(k) by {
        let (p, a, b) = choose|p: Seq<char>, a: nat, b: nat|
            #![trigger label_text(p, k), spaces(a), spaces(b)]
            label_prefix(p) && l == spaces(a) + label_text(p, k) + ":"@ + spaces(b);
        lemma_label_head(p, k);
        if a == 0 {
            assert(l[0] == label_text(p, k)[0]);
        } else {
            assert(l[0] == ' ');
        }
    }
}

/// A blank line defines no label.
pub(crate) proof fn lemma_among_blank(l: Seq<char>, s: Set<int>)
    requires
        blank(l),
    ensures
        labels_among(l, s),
{
    assert(one_line(l));
    lemma_lines_single(l);
    assert forall|i: int, k: int|
        0 <= i < lines(l).len() && #[trigger] defines_label(lines(l)[i], k) implies s.contains(k) by {
        let (p, a, b) = choose|p: Seq<char>, a: nat, b: nat|
            #![trigger label_text(p, k), spaces(a), spaces(b)]
            label_prefix(p) && l == spaces(a) + label_text(p, k) + ":"@ + spaces(b);
        lemma_label_head(p, k);
        assert(l[a as int] == label_text(p, k)[0]);
    }
}

/// The line `P_k:` defines label number `k` and no other.
pub(crate) proof fn lemma_among_label(p: Seq<char>, k: int, s: Set<int>)
    requires
        label_prefix(p),
        s.contains(k),
    ensures
        labels_among(label_text(p, k) + ":"@, s),
{
    reveal_strlit(":");
    lemma_label_head(p, k);
    let l = label_text(p, k) + ":"@;
    assert(one_line(l)) by {
        assert forall|i: int| 0 <= i < l.len() implies #[trigger] l[i] != '\n' by {
            if i < label_text(p, k).len() {
                assert(l[i] == label_text(p, k)[i]);
            }
        }
    }
    lemma_lines_single(l);
    assert forall|i: int, j: int|
        0 <= i < lines(l).len() && #[trigger] defines_label(lines(l)[i], j) implies s.contains(j) by {
        let (q, a, b) = choose|q: Seq<char>, a: nat, b: nat|
            #![trigger label_text(q, j), spaces(a), spaces(b)]
            label_prefix(q) && l == spaces(a) + label_text(q, j) + ":"@ + spaces(b);
        lemma_label_head(q, j);
        if a > 0 {
            assert(l[0] == ' ');
            assert(false);
        }
        if b > 0 {
            assert(l[l.len() - 1] == ' ');
            assert(false);
        }
        assert(label_text(q, j) =~= l.drop_last());
        assert(label_text(p, k) =~= l.drop_last());
        lemma_label_text_injective(p, k, q, j);
    }
}

/// Fewer numbers allowed, more allowed.
pub(crate) proof fn lemma_among_mono(t: Seq<char>, s: Set<int>, s2: Set<int>)
    requires
        labels_among(t, s),
        s.subset_of(s2),
    ensures
        labels_among(t, s2),
{
}

/// A line of blanks, then a piece that starts with neither a blank nor the
/// first letter of a label prefix, then more text on the same line.
pub(crate) proof fn lemma_among_line(b: Seq<char>, l1: Seq<char>, n: Seq<char>, l2: Seq<char>, s: Set<int>)
    requires
        blank(b),
        one_line(l1),
        one_line(n),
        one_line(l2),
        l1.len() > 0,
        l1[0] != ' ' && l1[0] != 'l' && l1[0] != 'e',
    ensures
        labels_among(b + (l1 + n + l2), s),
{
    let l = l1 + n + l2;
    assert forall|i: int| 0 <= i < l.len() implies #[trigger] l[i] != '\n' by {
        if i < l1.len() {
            assert(l[i] == l1[i]);
        } else if i < l1.len() + n.len() {
            assert(l[i] == n[i - l1.len()]);
        } else {
            assert(l[i] == l2[i - l1.len() - n.len()]);
        }
    }
    assert(l[0] == l1[0]);
    lemma_among_plain(l, s);
    lemma_among_indent(b, l, s);
}

pub(crate) proof fn lemma_nat_one_line(n: nat)
    ensures
        one_line(nat_text(n)),
{
    lemma_nat_text_chars(n);
}

pub(crate) proof fn lemma_int_one_line(n: int)
    ensures
        one_line(int_text(n)),
{
    lemma_int_text_chars(n);
}

/// The check that `rax` holds a number defines no label.
#[verifier::spinoff_prover]
#[verifier::rlimit(60)]
pub(crate) proof fn lemma_test_number_labels(code: int, s: Set<int>)
    ensures
        labels_among(test_number_text(code), s),
{
    reveal_strlit("mov rcx, rax\n             and rcx, ");
    reveal_strlit("\n             cmp rcx, 0\n             mov rdi, ");
    reveal_strlit("\n             jne label_error");
    reveal_strlit("mov rcx, rax");
    reveal_strlit("and rcx, ");
    reveal_strlit("cmp rcx, 0");
    reveal_strlit("mov rdi, ");
    reveal_strlit("jne label_error");
    reveal_strlit("             ");
    reveal_strlit("\n");
    let e = Seq::<char>::empty();
    let b = "             "@;
    let n3 = nat_text(3);
    let nc = nat_text(code as nat);
    lemma_nat_one_line(3);
    lemma_nat_one_line(code as nat);
    assert(test_number_text(code) =~= (e + ("mov rcx, rax"@ + e + e)) + "\n"@ + (b + ("and rcx, "@ + n3
        + e)) + "\n"@ + (b + ("cmp rcx, 0"@ + e + e)) + "\n"@ + (b + ("mov rdi, "@ + nc + e)) + "\n"@ + (b
        + ("jne label_error"@ + e + e)));
    lemma_among_line(e, "mov rcx, rax"@, e, e, s);
    lemma_among_line(b, "and rcx, "@, n3, e, s);
    lemma_among_line(b, "cmp rcx, 0"@, e, e, s);
    lemma_among_line(b, "mov rdi, "@, nc, e, s);
    lemma_among_line(b, "jne label_error"@, e, e, s);
    lemma_among_join(e + ("mov rcx, rax"@ + e + e), b + ("and rcx, "@ + n3 + e), s);
    lemma_among_join(
        (e + ("mov rcx, rax"@ + e + e)) + "\n"@ + (b + ("and rcx, "@ + n3 + e)),
        b + ("cmp rcx, 0"@ + e + e),
        s,
    );
    lemma_among_join(
        (e + ("mov rcx, rax"@ + e + e)) + "\n"@ + (b + ("and rcx, "@ + n3 + e)) + "\n"@ + (b + (
        "cmp rcx, 0"@ + e + e)),
        b + ("mov rdi, "@ + nc + e),
        s,
    );
    lemma_among_join(
        (e + ("mov rcx, rax"@ + e + e)) + "\n"@ + (b + ("and rcx, "@ + n3 + e)) + "\n"@ + (b + (
        "cmp rcx, 0"@ + e + e)) + "\n"@ + (b + ("mov rdi, "@ + nc + e)),
        b + ("jne label_error"@ + e + e),
        s,
    );
}

/// The lines of texts joined by newlines define the labels of the texts.
pub(crate) proof fn lemma_among_parts(parts: Seq<Seq<char>>, s: Set<int>)
    requires
        forall|i: int| 0 <= i < parts.len() ==> labels_among(#[trigger] parts[i], s),
    ensures
        labels_among(join_lines(parts), s),
    decreases parts.len(),
{
    if parts.len() == 0 {
        lemma_among_blank(Seq::empty(), s);
    } else if parts.len() == 1 {
    } else {
        lemma_among_parts(parts.drop_last(), s);
        assert(labels_among(parts[parts.len() - 1], s));
        lemma_among_join(join_lines(parts.drop_last()), parts.last(), s);
    }
}

/// The line `P_k:` behind blanks defines label number `k` and no other.
pub(crate) proof fn lemma_among_label_line(b: Seq<char>, p: Seq<char>, k: int, s: Set<int>)
    requires
        blank(b),
        label_prefix(p),
        s.contains(k),
    ensures
        labels_among(b + (label_text(p, k) + ":"@), s),
{
    lemma_among_label(p, k, s);
    lemma_among_indent(b, label_text(p, k) + ":"@, s);
}

/// The code of a sum defines no label beyond those of its parts and its own.
#[verifier::spinoff_prover]
#[verifier::rlimit(60)]
pub(crate) proof fn lemma_plus_labels(c1: Seq<char>, c2: Seq<char>, sp: int, s: Set<int>)
    requires
        labels_among(c1, s),
        labels_among(c2, s),
    ensures
        labels_among(
            c1 + "\n                 "@ + test_number_text(99) + "\n                 mov [rbp - 8*"@
                + nat_text(sp as nat) + "], rax\n                 "@ + c2 + "\n                 "@
                + test_number_text(33) + "\n                 add rax, [rbp - 8*"@ + nat_text(sp as nat)
                + "]\n                "@,
            s,
        ),
{
    reveal_strlit("\n                 ");
    reveal_strlit("\n                 mov [rbp - 8*");
    reveal_strlit("], rax\n                 ");
    reveal_strlit("\n                 add rax, [rbp - 8*");
    reveal_strlit("]\n                ");
    reveal_strlit("                 ");
    reveal_strlit("                ");
    reveal_strlit("mov [rbp - 8*");
    reveal_strlit("], rax");
    reveal_strlit("add rax, [rbp - 8*");
    reveal_strlit("]");
    reveal_strlit("\n");
    let e = Seq::<char>::empty();
    let b = "                 "@;
    let n = nat_text(sp as nat);
    lemma_nat_one_line(sp as nat);
    let parts = seq![
        c1,
        b + test_number_text(99),
        b + ("mov [rbp - 8*"@ + n + "], rax"@),
        b + c2,
        b + test_number_text(33),
        b + ("add rax, [rbp - 8*"@ + n + "]"@),
        "                "@,
    ];
    lemma_test_number_labels(99, s);
    lemma_test_number_labels(33, s);
    lemma_among_indent(b, test_number_text(99), s);
    lemma_among_indent(b, test_number_text(33), s);
    lemma_among_indent(b, c2, s);
    lemma_among_line(b, "mov [rbp - 8*"@, n, "], rax"@, s);
    lemma_among_line(b, "add rax, [rbp - 8*"@, n, "]"@, s);
    lemma_among_blank("                "@, s);
    assert forall|i: int| 0 <= i < parts.len() implies labels_among(#[trigger] parts[i], s) by {}
    lemma_among_parts(parts, s);
    reveal_with_fuel(join_lines, 8);
    assert(join_lines(parts) =~= c1 + "\n                 "@ + test_number_text(99)
        + "\n                 mov [rbp - 8*"@ + n + "], rax\n                 "@ + c2
        + "\n                 "@ + test_number_text(33) + "\n                 add rax, [rbp - 8*"@ + n
        + "]\n                "@);
}

/// The code of a number defines no label beyond those of its parts and its own.
#[verifier::spinoff_prover]
#[verifier::rlimit(60)]
pub(crate) proof fn lemma_num_labels(v: int, s: Set<int>)
    ensures
        labels_among("mov rax, "@ + int_text(v), s),
{
    reveal_strlit(":");
    reveal_strlit("\n");
    reveal_strlit("_");
    reveal_strlit("mov rax, ");
    let e = Seq::<char>::empty();
    lemma_int_one_line(v);
    let parts = seq![e + ("mov rax, "@ + int_text(v) + e)];
    lemma_among_line(e, "mov rax, "@, int_text(v), e, s);
    assert forall|i: int| 0 <= i < parts.len() implies labels_among(#[trigger] parts[i], s) by {}
    lemma_among_parts(parts, s);
    reveal_with_fuel(join_lines, 2);
    assert(join_lines(parts) =~= "mov rax, "@ + int_text(v));
}

/// The code of `add1` defines no label beyond those of its parts and its own.
#[verifier::spinoff_prover]
#[verifier::rlimit(60)]
pub(crate) proof fn lemma_add1_labels(c: Seq<char>, s: Set<int>)
    requires
        labels_among(c, s),
    ensures
        labels_among(c + "\nadd rax, 2"@, s),
{
    reveal_strlit(":");
    reveal_strlit("\n");
    reveal_strlit("\nadd rax, 2");
    reveal_strlit("_");
    reveal_strlit("add rax, 2");
    let e = Seq::<char>::empty();
    let parts = seq![c, e + ("add rax, 2"@ + e + e)];
    lemma_among_line(e, "add rax, 2"@, e, e, s);
    assert forall|i: int| 0 <= i < parts.len() implies labels_among(#[trigger] parts[i], s) by {}
    lemma_among_parts(parts, s);
    reveal_with_fuel(join_lines, 3);
    assert(join_lines(parts) =~= c + "\nadd rax, 2"@);
}

/// The code of `sub1` defines no label beyond those of its parts and its own.
#[verifier::spinoff_prover]
#[verifier::rlimit(60)]
pub(crate) proof fn lemma_sub1_labels(c: Seq<char>, s: Set<int>)
    requires
        labels_among(c, s),
    ensures
        labels_among(c + "\nsub rax, 2"@, s),
{
    reveal_strlit(":");
    reveal_strlit("\n");
    reveal_strlit("\nsub rax, 2");
    reveal_strlit("_");
    reveal_strlit("sub rax, 2");
    let e = Seq::<char>::empty();
    let parts = seq![c, e + ("sub rax, 2"@ + e + e)];
    lemma_among_line(e, "sub rax, 2"@, e, e, s);
    assert forall|i: int| 0 <= i < parts.len() implies labels_among(#[trigger] parts[i], s) by {}
    lemma_among_parts(parts, s);
    reveal_with_fuel(join_lines, 3);
    assert(join_lines(parts) =~= c + "\nsub rax, 2"@);
}

/// The code of `negate` defines no label beyond those of its parts and its own.
#[verifier::spinoff_prover]
#[verifier::rlimit(60)]
pub(crate) proof fn lemma_neg_labels(c: Seq<char>, s: Set<int>)
    requires
        labels_among(c, s),
    ensures
        labels_among(c + "\nneg rax"@, s),
{
    reveal_strlit(":");
    reveal_strlit("\n");
    reveal_strlit("\nneg rax");
    reveal_strlit("_");
    reveal_strlit("neg rax");
    let e = Seq::<char>::empty();
    let parts = seq![c, e + ("neg rax"@ + e + e)];
    lemma_among_line(e, "neg rax"@, e, e, s);
    assert forall|i: int| 0 <= i < parts.len() implies labels_among(#[trigger] parts[i], s) by {}
    lemma_among_parts(parts, s);
    reveal_with_fuel(join_lines, 3);
    assert(join_lines(parts) =~= c + "\nneg rax"@);
}

/// The code of a variable defines no label beyond those of its parts and its own.
#[verifier::spinoff_prover]
#[verifier::rlimit(60)]
pub(crate) proof fn lemma_var_labels(v: int, s: Set<int>)
    ensures
        labels_among("mov rax, [rbp - 8*"@ + int_text(v) + "]"@, s),
{
    reveal_strlit(":");
    reveal_strlit("\n");
    reveal_strlit("]");
    reveal_strlit("_");
    reveal_strlit("mov rax, [rbp - 8*");
    let e = Seq::<char>::empty();
    lemma_int_one_line(v);
    let parts = seq![e + ("mov rax, [rbp - 8*"@ + int_text(v) + "]"@)];
    lemma_among_line(e, "mov rax, [rbp - 8*"@, int_text(v), "]"@, s);
    assert forall|i: int| 0 <= i < parts.len() implies labels_among(#[trigger] parts[i], s) by {}
    lemma_among_parts(parts, s);
    reveal_with_fuel(join_lines, 2);
    assert(join_lines(parts) =~= "mov rax, [rbp - 8*"@ + int_text(v) + "]"@);
}

/// The code of a `let` defines no label beyond those of its parts and its own.
#[verifier::spinoff_prover]
#[verifier::rlimit(60)]
pub(crate) proof fn lemma_let_labels(c1: Seq<char>, c2: Seq<char>, sp: int, s: Set<int>)
    requires
        labels_among(c1, s),
        labels_among(c2, s),
    ensures
        labels_among(c1 + "\n"@ + ("mov [rbp - 8*"@ + nat_text(sp as nat) + "], rax"@) + "\n"@ + c2, s),
{
    reveal_strlit(":");
    reveal_strlit("\n");
    reveal_strlit("], rax");
    reveal_strlit("_");
    reveal_strlit("mov [rbp - 8*");
    let e = Seq::<char>::empty();
    lemma_nat_one_line(sp as nat);
    let parts = seq![c1, e + ("mov [rbp - 8*"@ + nat_text(sp as nat) + "], rax"@), c2];
    lemma_among_line(e, "mov [rbp - 8*"@, nat_text(sp as nat), "], rax"@, s);
    assert forall|i: int| 0 <= i < parts.len() implies labels_among(#[trigger] parts[i], s) by {}
    lemma_among_parts(parts, s);
    reveal_with_fuel(join_lines, 4);
    assert(join_lines(parts) =~= c1 + "\n"@ + ("mov [rbp - 8*"@ + nat_text(sp as nat) + "], rax"@) + "\n"@ + c2);
}

/// The code of a product defines no label beyond those of its parts and its own.
#[verifier::spinoff_prover]
#[verifier::rlimit(60)]
pub(crate) proof fn lemma_mult_labels(c1: Seq<char>, c2: Seq<char>, sp: int, s: Set<int>)
    requires
        labels_among(c1, s),
        labels_among(c2, s),
    ensures
        labels_among(c1 + "\n                 "@ + test_number_text(99) + "\n                 mov [rbp - "@ + nat_text((8 * sp) as nat) + "], rax\n                 "@ + c2 + "\n                 "@ + test_number_text(33) + "\n                 sar rax, 1\n                 imul rax, [rbp - "@ + nat_text((8 * sp) as nat) + "]\n                "@, s),
{
    reveal_strlit("                ");
    reveal_strlit("                 ");
    reveal_strlit(":");
    reveal_strlit("\n");
    reveal_strlit("\n                 ");
    reveal_strlit("\n                 mov [rbp - ");
    reveal_strlit("\n                 sar rax, 1\n                 imul rax, [rbp - ");
    reveal_strlit("]");
    reveal_strlit("], rax");
    reveal_strlit("], rax\n                 ");
    reveal_strlit("]\n                ");
    reveal_strlit("_");
    reveal_strlit("imul rax, [rbp - ");
    reveal_strlit("mov [rbp - ");
    reveal_strlit("sar rax, 1");
    let e = Seq::<char>::empty();
    lemma_nat_one_line((8 * sp) as nat);
    let parts = seq![
        c1,
        "                 "@ + test_number_text(99),
        "                 "@ + ("mov [rbp - "@ + nat_text((8 * sp) as nat) + "], rax"@),
        "                 "@ + c2,
        "                 "@ + test_number_text(33),
        "                 "@ + ("sar rax, 1"@ + e + e),
        "                 "@ + ("imul rax, [rbp - "@ + nat_text((8 * sp) as nat) + "]"@),
        "                "@,
    ];
    lemma_test_number_labels(99, s);
    lemma_among_indent("                 "@, test_number_text(99), s);
    lemma_among_line("                 "@, "mov [rbp - "@, nat_text((8 * sp) as nat), "], rax"@, s);
    lemma_among_indent("                 "@, c2, s);
    lemma_test_number_labels(33, s);
    lemma_among_indent("                 "@, test_number_text(33), s);
    lemma_among_line("                 "@, "sar rax, 1"@, e, e, s);
    lemma_among_line("                 "@, "imul rax, [rbp - "@, nat_text((8 * sp) as nat), "]"@, s);
    lemma_among_blank("                "@, s);
    assert forall|i: int| 0 <= i < parts.len() implies labels_among(#[trigger] parts[i], s) by {}
    lemma_among_parts(parts, s);
    reveal_with_fuel(join_lines, 9);
    assert(join_lines(parts) =~= c1 + "\n                 "@ + test_number_text(99) + "\n                 mov [rbp - "@ + nat_text((8 * sp) as nat) + "], rax\n                 "@ + c2 + "\n                 "@ + test_number_text(33) + "\n                 sar rax, 1\n                 imul rax, [rbp - "@ + nat_text((8 * sp) as nat) + "]\n                "@);
}

/// The code of a conditional defines no label beyond those of its parts and its own.
#[verifier::spinoff_prover]
#[verifier::rlimit(60)]
pub(crate) proof fn lemma_if_labels(c1: Seq<char>, c2: Seq<char>, c3: Seq<char>, k3: int, s: Set<int>)
    requires
        labels_among(c1, s),
        labels_among(c2, s),
        labels_among(c3, s),
        s.contains(k3),
    ensures
        labels_among(c1 + "\n                      cmp rax, "@ + nat_text(FALSE as nat) + "\n                      je label_else_"@ + int_text(k3) + "\n                      "@ + c2 + "\n                      jmp label_exit_"@ + int_text(k3) + "\n                    label_else_"@ + int_text(k3) + ":\n                      "@ + c3 + "\n                    label_exit_"@ + int_text(k3) + ":"@, s),
{
    reveal_strlit("                    ");
    reveal_strlit("                      ");
    reveal_strlit(":");
    reveal_strlit(":\n                      ");
    reveal_strlit("\n");
    reveal_strlit("\n                      ");
    reveal_strlit("\n                      cmp rax, ");
    reveal_strlit("\n                      je label_else_");
    reveal_strlit("\n                      jmp label_exit_");
    reveal_strlit("\n                    label_else_");
    reveal_strlit("\n                    label_exit_");
    reveal_strlit("_");
    reveal_strlit("cmp rax, ");
    reveal_strlit("je label_else_");
    reveal_strlit("jmp label_exit_");
    reveal_strlit("label_else");
    reveal_strlit("label_exit");
    let e = Seq::<char>::empty();
    lemma_nat_one_line(FALSE as nat);
    lemma_int_one_line(k3);
    let parts = seq![
        c1,
        "                      "@ + ("cmp rax, "@ + nat_text(FALSE as nat) + e),
        "                      "@ + ("je label_else_"@ + int_text(k3) + e),
        "                      "@ + c2,
        "                      "@ + ("jmp label_exit_"@ + int_text(k3) + e),
        "                    "@ + (label_text("label_else"@, k3) + ":"@),
        "                      "@ + c3,
        "                    "@ + (label_text("label_exit"@, k3) + ":"@),
    ];
    lemma_among_line("                      "@, "cmp rax, "@, nat_text(FALSE as nat), e, s);
    lemma_among_line("                      "@, "je label_else_"@, int_text(k3), e, s);
    lemma_among_indent("                      "@, c2, s);
    lemma_among_line("                      "@, "jmp label_exit_"@, int_text(k3), e, s);
    lemma_among_label_line("                    "@, "label_else"@, k3, s);
    lemma_among_indent("                      "@, c3, s);
    lemma_among_label_line("                    "@, "label_exit"@, k3, s);
    assert forall|i: int| 0 <= i < parts.len() implies labels_among(#[trigger] parts[i], s) by {}
    lemma_among_parts(parts, s);
    reveal_with_fuel(join_lines, 9);
    assert(join_lines(parts) =~= c1 + "\n                      cmp rax, "@ + nat_text(FALSE as nat) + "\n                      je label_else_"@ + int_text(k3) + "\n                      "@ + c2 + "\n                      jmp label_exit_"@ + int_text(k3) + "\n                    label_else_"@ + int_text(k3) + ":\n                      "@ + c3 + "\n                    label_exit_"@ + int_text(k3) + ":"@);
}

/// The code of a comparison defines no label beyond those of its parts and its own.
#[verifier::spinoff_prover]
#[verifier::rlimit(60)]
pub(crate) proof fn lemma_eq_labels(c1: Seq<char>, c2: Seq<char>, sp: int, k: int, s: Set<int>)
    requires
        labels_among(c1, s),
        labels_among(c2, s),
        s.contains(k),
    ensures
        labels_among(c1 + "\n                 mov [rbp - 8*"@ + nat_text(sp as nat) + "], rax\n                 "@ + c2 + "\n                 cmp rax, [rbp - 8*"@ + nat_text(sp as nat) + "]\n                 mov rax, "@ + nat_text(FALSE as nat) + "\n                 jne "@ + label_text("eq_exit"@, k) + "\n                 mov rax, "@ + nat_text(TRUE as nat) + "\n               "@ + label_text("eq_exit"@, k) + ":\n                "@, s),
{
    reveal_strlit("               ");
    reveal_strlit("                ");
    reveal_strlit("                 ");
    reveal_strlit(":");
    reveal_strlit(":\n                ");
    reveal_strlit("\n");
    reveal_strlit("\n               ");
    reveal_strlit("\n                 cmp rax, [rbp - 8*");
    reveal_strlit("\n                 jne ");
    reveal_strlit("\n                 mov [rbp - 8*");
    reveal_strlit("\n                 mov rax, ");
    reveal_strlit("]");
    reveal_strlit("], rax");
    reveal_strlit("], rax\n                 ");
    reveal_strlit("]\n                 mov rax, ");
    reveal_strlit("_");
    reveal_strlit("cmp rax, [rbp - 8*");
    reveal_strlit("eq_exit");
    reveal_strlit("jne ");
    reveal_strlit("mov [rbp - 8*");
    reveal_strlit("mov rax, ");
    let e = Seq::<char>::empty();
    lemma_nat_one_line(sp as nat);
    lemma_nat_one_line(FALSE as nat);
    lemma_nat_one_line(TRUE as nat);
    lemma_label_head("eq_exit"@, k);
    let parts = seq![
        c1,
        "                 "@ + ("mov [rbp - 8*"@ + nat_text(sp as nat) + "], rax"@),
        "                 "@ + c2,
        "                 "@ + ("cmp rax, [rbp - 8*"@ + nat_text(sp as nat) + "]"@),
        "                 "@ + ("mov rax, "@ + nat_text(FALSE as nat) + e),
        "                 "@ + ("jne "@ + label_text("eq_exit"@, k) + e),
        "                 "@ + ("mov rax, "@ + nat_text(TRUE as nat) + e),
        "               "@ + (label_text("eq_exit"@, k) + ":"@),
        "                "@,
    ];
    lemma_among_line("                 "@, "mov [rbp - 8*"@, nat_text(sp as nat), "], rax"@, s);
    lemma_among_indent("                 "@, c2, s);
    lemma_among_line("                 "@, "cmp rax, [rbp - 8*"@, nat_text(sp as nat), "]"@, s);
    lemma_among_line("                 "@, "mov rax, "@, nat_text(FALSE as nat), e, s);
    lemma_among_line("                 "@, "jne "@, label_text("eq_exit"@, k), e, s);
    lemma_among_line("                 "@, "mov rax, "@, nat_text(TRUE as nat), e, s);
    lemma_among_label_line("               "@, "eq_exit"@, k, s);
    lemma_among_blank("                "@, s);
    assert forall|i: int| 0 <= i < parts.len() implies labels_among(#[trigger] parts[i], s) by {}
    lemma_among_parts(parts, s);
    reveal_with_fuel(join_lines, 10);
    assert(join_lines(parts) =~= c1 + "\n                 mov [rbp - 8*"@ + nat_text(sp as nat) + "], rax\n                 "@ + c2 + "\n                 cmp rax, [rbp - 8*"@ + nat_text(sp as nat) + "]\n                 mov rax, "@ + nat_text(FALSE as nat) + "\n                 jne "@ + label_text("eq_exit"@, k) + "\n                 mov rax, "@ + nat_text(TRUE as nat) + "\n               "@ + label_text("eq_exit"@, k) + ":\n                "@);
}

/// The code of an assignment defines no label beyond those of its parts and its own.
#[verifier::spinoff_prover]
#[verifier::rlimit(60)]
pub(crate) proof fn lemma_assign_labels(c: Seq<char>, v: int, s: Set<int>)
    requires
        labels_among(c, s),
    ensures
        labels_among(c + "\n                     mov [rbp - 8*"@ + int_text(v) + "], rax"@, s),
{
    reveal_strlit("                     ");
    reveal_strlit(":");
    reveal_strlit("\n");
    reveal_strlit("\n                     mov [rbp - 8*");
    reveal_strlit("], rax");
    reveal_strlit("_");
    reveal_strlit("mov [rbp - 8*");
    let e = Seq::<char>::empty();
    lemma_int_one_line(v);
    let parts = seq![c, "                     "@ + ("mov [rbp - 8*"@ + int_text(v) + "], rax"@)];
    lemma_among_line("                     "@, "mov [rbp - 8*"@, int_text(v), "], rax"@, s);
    assert forall|i: int| 0 <= i < parts.len() implies labels_among(#[trigger] parts[i], s) by {}
    lemma_among_parts(parts, s);
    reveal_with_fuel(join_lines, 3);
    assert(join_lines(parts) =~= c + "\n                     mov [rbp - 8*"@ + int_text(v) + "], rax"@);
}

/// The code of a loop defines no label beyond those of its parts and its own.
#[verifier::spinoff_prover]
#[verifier::rlimit(60)]
pub(crate) proof fn lemma_loop_labels(c: Seq<char>, k: int, s: Set<int>)
    requires
        labels_among(c, s),
        s.contains(k),
    ensures
        labels_among(label_text("loop_start"@, k) + ":\n                        "@ + c + "\n                        jmp "@ + label_text("loop_start"@, k) + "\n                     "@ + label_text("loop_exit"@, k) + ":"@, s),
{
    reveal_strlit("                     ");
    reveal_strlit("                        ");
    reveal_strlit(":");
    reveal_strlit(":\n                        ");
    reveal_strlit("\n");
    reveal_strlit("\n                     ");
    reveal_strlit("\n                        jmp ");
    reveal_strlit("_");
    reveal_strlit("jmp ");
    reveal_strlit("loop_exit");
    reveal_strlit("loop_start");
    let e = Seq::<char>::empty();
    lemma_label_head("loop_start"@, k);
    let parts = seq![
        e + (label_text("loop_start"@, k) + ":"@),
        "                        "@ + c,
        "                        "@ + ("jmp "@ + label_text("loop_start"@, k) + e),
        "                     "@ + (label_text("loop_exit"@, k) + ":"@),
    ];
    lemma_among_label_line(e, "loop_start"@, k, s);
    lemma_among_indent("                        "@, c, s);
    lemma_among_line("                        "@, "jmp "@, label_text("loop_start"@, k), e, s);
    lemma_among_label_line("                     "@, "loop_exit"@, k, s);
    assert forall|i: int| 0 <= i < parts.len() implies labels_among(#[trigger] parts[i], s) by {}
    lemma_among_parts(parts, s);
    reveal_with_fuel(join_lines, 5);
    assert(join_lines(parts) =~= label_text("loop_start"@, k) + ":\n                        "@ + c + "\n                        jmp "@ + label_text("loop_start"@, k) + "\n                     "@ + label_text("loop_exit"@, k) + ":"@);
}

/// The code of a `break` defines no label beyond those of its parts and its own.
#[verifier::spinoff_prover]
#[verifier::rlimit(60)]
pub(crate) proof fn lemma_break_labels(c: Seq<char>, brk: Seq<char>, s: Set<int>)
    requires
        labels_among(c, s),
        one_line(brk),
    ensures
        labels_among(c + "\n                     jmp "@ + brk, s),
{
    reveal_strlit("                     ");
    reveal_strlit(":");
    reveal_strlit("\n");
    reveal_strlit("\n                     jmp ");
    reveal_strlit("_");
    reveal_strlit("jmp ");
    let e = Seq::<char>::empty();
    let parts = seq![c, "                     "@ + ("jmp "@ + brk + e)];
    lemma_among_line("                     "@, "jmp "@, brk, e, s);
    assert forall|i: int| 0 <= i < parts.len() implies labels_among(#[trigger] parts[i], s) by {}
    lemma_among_parts(parts, s);
    reveal_with_fuel(join_lines, 3);
    assert(join_lines(parts) =~= c + "\n                     jmp "@ + brk);
}

/// The code of a `print` defines no label beyond those of its parts and its own.
#[verifier::spinoff_prover]
#[verifier::rlimit(60)]
pub(crate) proof fn lemma_print_labels(c: Seq<char>, s: Set<int>)
    requires
        labels_among(c, s),
    ensures
        labels_among(c + "\n                     mov rdi, rax\n                     call snek_print\n                    "@, s),
{
    reveal_strlit("                    ");
    reveal_strlit("                     ");
    reveal_strlit(":");
    reveal_strlit("\n");
    reveal_strlit("\n                     mov rdi, rax\n                     call snek_print\n                    ");
    reveal_strlit("_");
    reveal_strlit("call snek_print");
    reveal_strlit("mov rdi, rax");
    let e = Seq::<char>::empty();
    let parts = seq![
        c,
        "                     "@ + ("mov rdi, rax"@ + e + e),
        "                     "@ + ("call snek_print"@ + e + e),
        "                    "@,
    ];
    lemma_among_line("                     "@, "mov rdi, rax"@, e, e, s);
    lemma_among_line("                     "@, "call snek_print"@, e, e, s);
    lemma_among_blank("                    "@, s);
    assert forall|i: int| 0 <= i < parts.len() implies labels_among(#[trigger] parts[i], s) by {}
    lemma_among_parts(parts, s);
    reveal_with_fuel(join_lines, 5);
    assert(join_lines(parts) =~= c + "\n                     mov rdi, rax\n                     call snek_print\n                    "@);
}

/// The code of a call of one argument defines no label beyond those of its parts and its own.
#[verifier::spinoff_prover]
#[verifier::rlimit(60)]
pub(crate) proof fn lemma_call1_labels(c: Seq<char>, f: Seq<char>, s: Set<int>)
    requires
        labels_among(c, s),
        one_line(f),
    ensures
        labels_among(c + "\n                 push rax\n                 call fun_start_"@ + f + "\n                 add rsp, 8*1\n                "@, s),
{
    reveal_strlit("                ");
    reveal_strlit("                 ");
    reveal_strlit(":");
    reveal_strlit("\n");
    reveal_strlit("\n                 add rsp, 8*1\n                ");
    reveal_strlit("\n                 push rax\n                 call fun_start_");
    reveal_strlit("_");
    reveal_strlit("add rsp, 8*1");
    reveal_strlit("call fun_start_");
    reveal_strlit("push rax");
    let e = Seq::<char>::empty();
    let parts = seq![
        c,
        "                 "@ + ("push rax"@ + e + e),
        "                 "@ + ("call fun_start_"@ + f + e),
        "                 "@ + ("add rsp, 8*1"@ + e + e),
        "                "@,
    ];
    lemma_among_line("                 "@, "push rax"@, e, e, s);
    lemma_among_line("                 "@, "call fun_start_"@, f, e, s);
    lemma_among_line("                 "@, "add rsp, 8*1"@, e, e, s);
    lemma_among_blank("                "@, s);
    assert forall|i: int| 0 <= i < parts.len() implies labels_among(#[trigger] parts[i], s) by {}
    lemma_among_parts(parts, s);
    reveal_with_fuel(join_lines, 6);
    assert(join_lines(parts) =~= c + "\n                 push rax\n                 call fun_start_"@ + f + "\n                 add rsp, 8*1\n                "@);
}

/// The code of a call of two arguments defines no label beyond those of its parts and its own.
#[verifier::spinoff_prover]
#[verifier::rlimit(60)]
pub(crate) proof fn lemma_call2_labels(c1: Seq<char>, c2: Seq<char>, sp: int, f: Seq<char>, s: Set<int>)
    requires
        labels_among(c1, s),
        labels_among(c2, s),
        one_line(f),
    ensures
        labels_among(c1 + "\n                 mov [rbp - 8*"@ + nat_text(sp as nat) + "], rax\n                 "@ + c2 + "\n                 push rax\n                 mov rcx, [rbp - 8*"@ + nat_text(sp as nat) + "]\n                 push rcx\n                 call fun_start_"@ + f + "\n                 add rsp, 8*2\n                "@, s),
{
    reveal_strlit("                ");
    reveal_strlit("                 ");
    reveal_strlit(":");
    reveal_strlit("\n");
    reveal_strlit("\n                 add rsp, 8*2\n                ");
    reveal_strlit("\n                 mov [rbp - 8*");
    reveal_strlit("\n                 push rax\n                 mov rcx, [rbp - 8*");
    reveal_strlit("]");
    reveal_strlit("], rax");
    reveal_strlit("], rax\n                 ");
    reveal_strlit("]\n                 push rcx\n                 call fun_start_");
    reveal_strlit("_");
    reveal_strlit("add rsp, 8*2");
    reveal_strlit("call fun_start_");
    reveal_strlit("mov [rbp - 8*");
    reveal_strlit("mov rcx, [rbp - 8*");
    reveal_strlit("push rax");
    reveal_strlit("push rcx");
    let e = Seq::<char>::empty();
    lemma_nat_one_line(sp as nat);
    let parts = seq![
        c1,
        "                 "@ + ("mov [rbp - 8*"@ + nat_text(sp as nat) + "], rax"@),
        "                 "@ + c2,
        "                 "@ + ("push rax"@ + e + e),
        "                 "@ + ("mov rcx, [rbp - 8*"@ + nat_text(sp as nat) + "]"@),
        "                 "@ + ("push rcx"@ + e + e),
        "                 "@ + ("call fun_start_"@ + f + e),
        "                 "@ + ("add rsp, 8*2"@ + e + e),
        "                "@,
    ];
    lemma_among_line("                 "@, "mov [rbp - 8*"@, nat_text(sp as nat), "], rax"@, s);
    lemma_among_indent("                 "@, c2, s);
    lemma_among_line("                 "@, "push rax"@, e, e, s);
    lemma_among_line("                 "@, "mov rcx, [rbp - 8*"@, nat_text(sp as nat), "]"@, s);
    lemma_among_line("                 "@, "push rcx"@, e, e, s);
    lemma_among_line("                 "@, "call fun_start_"@, f, e, s);
    lemma_among_line("                 "@, "add rsp, 8*2"@, e, e, s);
    lemma_among_blank("                "@, s);
    assert forall|i: int| 0 <= i < parts.len() implies labels_among(#[trigger] parts[i], s) by {}
    lemma_among_parts(parts, s);
    reveal_with_fuel(join_lines, 10);
    assert(join_lines(parts) =~= c1 + "\n                 mov [rbp - 8*"@ + nat_text(sp as nat) + "], rax\n                 "@ + c2 + "\n                 push rax\n                 mov rcx, [rbp - 8*"@ + nat_text(sp as nat) + "]\n                 push rcx\n                 call fun_start_"@ + f + "\n                 add rsp, 8*2\n                "@);
}

/// The code of a pair defines no label beyond those of its parts and its own.
#[verifier::spinoff_prover]
#[verifier::rlimit(60)]
pub(crate) proof fn lemma_vec_labels(c1: Seq<char>, c2: Seq<char>, sp: int, s: Set<int>)
    requires
        labels_among(c1, s),
        labels_among(c2, s),
    ensures
        labels_among(c1 + "\n                 mov [rbp - 8*"@ + nat_text(sp as nat) + "], rax\n                 "@ + c2 + "\n                 mov rcx, [rbp - 8*"@ + nat_text(sp as nat) + "]\n                 mov [r11], rcx\n                 mov [r11 + 8], rax\n                 mov rax, r11\n                 add rax, 1\n                 add r11, 16"@, s),
{
    reveal_strlit("                 ");
    reveal_strlit(":");
    reveal_strlit("\n");
    reveal_strlit("\n                 mov [rbp - 8*");
    reveal_strlit("\n                 mov rcx, [rbp - 8*");
    reveal_strlit("]");
    reveal_strlit("], rax");
    reveal_strlit("], rax\n                 ");
    reveal_strlit("]\n                 mov [r11], rcx\n                 mov [r11 + 8], rax\n                 mov rax, r11\n                 add rax, 1\n                 add r11, 16");
    reveal_strlit("_");
    reveal_strlit("add r11, 16");
    reveal_strlit("add rax, 1");
    reveal_strlit("mov [r11 + 8], rax");
    reveal_strlit("mov [r11], rcx");
    reveal_strlit("mov [rbp - 8*");
    reveal_strlit("mov rax, r11");
    reveal_strlit("mov rcx, [rbp - 8*");
    let e = Seq::<char>::empty();
    lemma_nat_one_line(sp as nat);
    let parts = seq![
        c1,
        "                 "@ + ("mov [rbp - 8*"@ + nat_text(sp as nat) + "], rax"@),
        "                 "@ + c2,
        "                 "@ + ("mov rcx, [rbp - 8*"@ + nat_text(sp as nat) + "]"@),
        "                 "@ + ("mov [r11], rcx"@ + e + e),
        "                 "@ + ("mov [r11 + 8], rax"@ + e + e),
        "                 "@ + ("mov rax, r11"@ + e + e),
        "                 "@ + ("add rax, 1"@ + e + e),
        "                 "@ + ("add r11, 16"@ + e + e),
    ];
    lemma_among_line("                 "@, "mov [rbp - 8*"@, nat_text(sp as nat), "], rax"@, s);
    lemma_among_indent("                 "@, c2, s);
    lemma_among_line("                 "@, "mov rcx, [rbp - 8*"@, nat_text(sp as nat), "]"@, s);
    lemma_among_line("                 "@, "mov [r11], rcx"@, e, e, s);
    lemma_among_line("                 "@, "mov [r11 + 8], rax"@, e, e, s);
    lemma_among_line("                 "@, "mov rax, r11"@, e, e, s);
    lemma_among_line("                 "@, "add rax, 1"@, e, e, s);
    lemma_among_line("                 "@, "add r11, 16"@, e, e, s);
    assert forall|i: int| 0 <= i < parts.len() implies labels_among(#[trigger] parts[i], s) by {}
    lemma_among_parts(parts, s);
    reveal_with_fuel(join_lines, 10);
    assert(join_lines(parts) =~= c1 + "\n                 mov [rbp - 8*"@ + nat_text(sp as nat) + "], rax\n                 "@ + c2 + "\n                 mov rcx, [rbp - 8*"@ + nat_text(sp as nat) + "]\n                 mov [r11], rcx\n                 mov [r11 + 8], rax\n                 mov rax, r11\n                 add rax, 1\n                 add r11, 16"@);
}

/// The code of `input` defines no label beyond those of its parts and its own.
#[verifier::spinoff_prover]
#[verifier::rlimit(60)]
pub(crate) proof fn lemma_input_labels(s: Set<int>)
    ensures
        labels_among("mov rax, [rbp - 8]"@, s),
{
    reveal_strlit(":");
    reveal_strlit("\n");
    reveal_strlit("_");
    reveal_strlit("mov rax, [rbp - 8]");
    let e = Seq::<char>::empty();
    let parts = seq![e + ("mov rax, [rbp - 8]"@ + e + e)];
    lemma_among_line(e, "mov rax, [rbp - 8]"@, e, e, s);
    assert forall|i: int| 0 <= i < parts.len() implies labels_among(#[trigger] parts[i], s) by {}
    lemma_among_parts(parts, s);
    reveal_with_fuel(join_lines, 2);
    assert(join_lines(parts) =~= "mov rax, [rbp - 8]"@);
}

/// The code of `true` defines no label beyond those of its parts and its own.
#[verifier::spinoff_prover]
#[verifier::rlimit(60)]
pub(crate) proof fn lemma_true_labels(s: Set<int>)
    ensures
        labels_among("mov rax, "@ + nat_text(TRUE as nat), s),
{
    reveal_strlit(":");
    reveal_strlit("\n");
    reveal_strlit("_");
    reveal_strlit("mov rax, ");
    let e = Seq::<char>::empty();
    lemma_nat_one_line(TRUE as nat);
    let parts = seq![e + ("mov rax, "@ + nat_text(TRUE as nat) + e)];
    lemma_among_line(e, "mov rax, "@, nat_text(TRUE as nat), e, s);
    assert forall|i: int| 0 <= i < parts.len() implies labels_among(#[trigger] parts[i], s) by {}
    lemma_among_parts(parts, s);
    reveal_with_fuel(join_lines, 2);
    assert(join_lines(parts) =~= "mov rax, "@ + nat_text(TRUE as nat));
}

/// The code of `false` defines no label beyond those of its parts and its own.
#[verifier::spinoff_prover]
#[verifier::rlimit(60)]
pub(crate) proof fn lemma_false_labels(s: Set<int>)
    ensures
        labels_among("mov rax, "@ + nat_text(FALSE as nat), s),
{
    reveal_strlit(":");
    reveal_strlit("\n");
    reveal_strlit("_");
    reveal_strlit("mov rax, ");
    let e = Seq::<char>::empty();
    lemma_nat_one_line(FALSE as nat);
    let parts = seq![e + ("mov rax, "@ + nat_text(FALSE as nat) + e)];
    lemma_among_line(e, "mov rax, "@, nat_text(FALSE as nat), e, s);
    assert forall|i: int| 0 <= i < parts.len() implies labels_among(#[trigger] parts[i], s) by {}
    lemma_among_parts(parts, s);
    reveal_with_fuel(join_lines, 2);
    assert(join_lines(parts) =~= "mov rax, "@ + nat_text(FALSE as nat));
}

} // verus!
