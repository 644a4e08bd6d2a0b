//! S-expressions as the parsers read them, and reading them from text.
use vstd::prelude::*;

verus! {

/// An atom of an s-expression: a symbol, an integer, or a floating-point
/// number (whose value no parser here reads).
#[derive(Debug)]
pub enum Atom {
    S(String),
    I(i64),
    F,
}

/// An s-expression: an atom or a list of s-expressions.
#[derive(Debug)]
pub enum Sexpr {
    Atom(Atom),
    List(Vec<Sexpr>),
}

/// The tree of the `sexp` crate, opaque here: only `read_sexp` handles it.
#[verifier::external_type_specification]
#[verifier::external_body]
pub struct ExOutsideSexp(sexp::Sexp);

/// The s-expression that `sexp::parse` reads from `text`, or `None` where it
/// reports an error.
pub uninterp spec fn sexp_parse(text: Seq<char>) -> Option<Sexpr>;

/// Copies a tree of the `sexp` crate into the library's own type, node for
/// node; the value of a float atom is dropped. It has no contract: nothing of
/// the tree it is given is visible to Verus, and only `read_sexp` calls it.
#[verifier::external_body]
fn copy_tree(s: sexp::Sexp) -> Sexpr {
    match s {
        sexp::Sexp::Atom(sexp::Atom::S(x)) => Sexpr::Atom(Atom::S(x)),
        sexp::Sexp::Atom(sexp::Atom::I(n)) => Sexpr::Atom(Atom::I(n)),
        sexp::Sexp::Atom(sexp::Atom::F(_)) => Sexpr::Atom(Atom::F),
        sexp::Sexp::List(xs) => Sexpr::List(xs.into_iter().map(copy_tree).collect()),
    }
}

/// Reads an s-expression from text with `sexp::parse`. Its contract claims
/// only that the result is a function of the text (named `sexp_parse`):
/// `Ok` becomes `Some` of the same tree, an error becomes `None`.
#[verifier::external_body]
pub(crate) fn read_sexp(text: &str) -> (r: Option<Sexpr>)
    ensures
        r == sexp_parse(text@),
{
    match sexp::parse(text) {
        Ok(s) => Some(copy_tree(s)),
        Err(_) => None,
    }
}

/// Whether `s` is the symbol `w`.
pub open spec fn is_symbol(s: Sexpr, w: Seq<char>) -> bool {
    s matches Sexpr::Atom(Atom::S(x)) && x@ == w
}

/// Whether `s` is the symbol `w`.
pub fn symbol_is(s: &Sexpr, w: &str) -> (r: bool)
    ensures
        r == is_symbol(*s, w@),
{
    match s {
        Sexpr::Atom(Atom::S(x)) => crate::text::is_word(x, w),
        _ => false,
    }
}

/// Whether `s` is a symbol.
pub open spec fn is_any_symbol(s: Sexpr) -> bool {
    s matches Sexpr::Atom(Atom::S(_))
}

/// The value of an integer atom when it fits in an `i32`.
pub open spec fn small_int(n: i64) -> bool {
    i32::MIN <= n <= i32::MAX
}

} // verus!
