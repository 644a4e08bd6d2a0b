//! Texts read as lines: the pieces between newlines, and how the lines of
//! a text built by concatenation come from the lines of its parts.
use vstd::prelude::*;
use crate::text::{digit_char, int_text, nat_text};

verus! {

/// The lines of a text: the pieces between its newlines, in order (a text
/// without a newline is one line, the empty text one empty line).
pub open spec fn lines(t: Seq<char>) -> Seq<Seq<char>>
    decreases t.len(),
{
    if t.len() == 0 {
        seq![Seq::empty()]
    } else if t[0] == '\n' {
        seq![Seq::<char>::empty()] + lines(t.skip(1))
    } else {
        let r = lines(t.skip(1));
        r.update(0, seq![t[0]] + r[0])
    }
}

/// Whether `t` holds no newline.
pub open spec fn one_line(t: Seq<char>) -> bool {
    forall|i: int| 0 <= i < t.len() ==> #[trigger] t[i] != '\n'
}

/// Whether `t` is made of blanks only.
pub open spec fn blank(t: Seq<char>) -> bool {
    forall|i: int| 0 <= i < t.len() ==> #[trigger] t[i] == ' '
}

/// `n` blanks.
pub open spec fn spaces(n: nat) -> Seq<char> {
    Seq::new(n, |i: int| ' ')
}

pub proof fn lemma_lines_nonempty(t: Seq<char>)
    ensures
        lines(t).len() >= 1,
    decreases t.len(),
{
    if t.len() > 0 {
        lemma_lines_nonempty(t.skip(1));
    }
}

/// The lines of `x`, a newline, then `y` are the lines of `x` followed by
/// the lines of `y`.
pub proof fn lemma_lines_join(x: Seq<char>, y: Seq<char>)
    ensures
        lines(x + "\n"@ + y) == lines(x) + lines(y),
    decreases x.len(),
{
    reveal_strlit("\n");
    let t = x + "\n"@ + y;
    lemma_lines_nonempty(x);
    lemma_lines_nonempty(y);
    if x.len() == 0 {
        assert(t.skip(1) =~= y);
        assert(lines(x) + lines(y) =~= seq![Seq::<char>::empty()] + lines(y));
    } else {
        assert(t.skip(1) =~= x.skip(1) + "\n"@ + y);
        lemma_lines_join(x.skip(1), y);
        lemma_lines_nonempty(x.skip(1));
        if x[0] == '\n' {
            assert(lines(t) =~= lines(x) + lines(y));
        } else {
            let r = lines(x.skip(1));
            assert((r + lines(y)).update(0, seq![x[0]] + r[0]) =~= r.update(0, seq![x[0]] + r[0])
                + lines(y));
        }
    }
}

/// A one-line text put in front of `y` joins the first line of `y`.
pub proof fn lemma_lines_prefix(x: Seq<char>, y: Seq<char>)
    requires
        one_line(x),
    ensures
        lines(x + y) == lines(y).update(0, x + lines(y)[0]),
    decreases x.len(),
{
    lemma_lines_nonempty(y);
    if x.len() == 0 {
        assert(x + y =~= y);
        assert(lines(y).update(0, x + lines(y)[0]) =~= lines(y));
    } else {
        let t = x + y;
        assert(t.skip(1) =~= x.skip(1) + y);
        assert(t[0] == x[0]);
        lemma_lines_prefix(x.skip(1), y);
        let r = lines(x.skip(1) + y);
        assert(seq![x[0]] + (x.skip(1) + lines(y)[0]) =~= x + lines(y)[0]);
        assert(r.update(0, seq![x[0]] + r[0]) =~= lines(y).update(0, x + lines(y)[0]));
    }
}

/// A text without a newline is a single line.
pub proof fn lemma_lines_single(x: Seq<char>)
    requires
        one_line(x),
    ensures
        lines(x) == seq![x],
{
    lemma_lines_prefix(x, Seq::empty());
    assert(x + Seq::<char>::empty() =~= x);
    assert(lines(Seq::<char>::empty()) == seq![Seq::<char>::empty()]);
    assert(seq![Seq::<char>::empty()].update(0, x + Seq::<char>::empty()) =~= seq![x]);
}

/// Decimal text holds only digits and a sign.
pub proof fn lemma_nat_text_chars(n: nat)
    ensures
        forall|i: int| 0 <= i < nat_text(n).len() ==> {
            let c = #[trigger] nat_text(n)[i];
            c != '\n' && c != ' ' && c != ':' && c != '-' && c != ']' && c != '_' && c != '*'
        },
    decreases n,
{
    let t = nat_text(n);
    if n >= 10 {
        lemma_nat_text_chars(n / 10);
        assert forall|i: int| 0 <= i < t.len() implies {
            let c = #[trigger] t[i];
            c != '\n' && c != ' ' && c != ':' && c != '-' && c != ']' && c != '_' && c != '*'
        } by {
            if i < t.len() - 1 {
                assert(t[i] == nat_text(n / 10)[i]);
            } else {
                assert(t[i] == digit_char((n % 10) as int));
            }
        }
    } else {
        assert(t[0] == digit_char(n as int));
    }
}

/// Decimal text of an integer holds no newline, blank, colon, bracket,
/// underscore or star.
pub proof fn lemma_int_text_chars(n: int)
    ensures
        forall|i: int| 0 <= i < int_text(n).len() ==> {
            let c = #[trigger] int_text(n)[i];
            c != '\n' && c != ' ' && c != ':' && c != ']' && c != '_' && c != '*'
        },
{
    if n < 0 {
        lemma_nat_text_chars((-n) as nat);
        assert forall|i: int| 1 <= i < int_text(n).len() implies int_text(n)[i] == nat_text(
            (-n) as nat,
        )[i - 1] by {}
    } else {
        lemma_nat_text_chars(n as nat);
    }
}

} // verus!
