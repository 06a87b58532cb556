//! Shaping recognized constructs into expression trees.
use vstd::prelude::*;

use crate::expr::{views, Expr, Tree};
use crate::grammar::{container, leaf, unescaped};

verus! {

/// Relies on `String::push`: appends one character at the end of the string.
#[verifier::external_body]
pub(crate) fn push_char(s: &mut String, c: char)
    ensures
        final(s)@ == old(s)@.push(c),
{
    s.push(c);
}

/// The text that the raw characters `s[a..b]` of quoted text stand for:
/// a backslash is dropped and the character after it is kept verbatim.
pub fn unescape(s: &Vec<char>, a: usize, b: usize) -> (r: String)
    requires
        a <= b <= s.len(),
    ensures
        r@ == unescaped(s@.subrange(a as int, b as int)),
{
    let mut out = String::new();
    let mut j: usize = a;
    while j < b
        invariant
            a <= j <= b <= s.len(),
            out@ + unescaped(s@.subrange(j as int, b as int)) == unescaped(
                s@.subrange(a as int, b as int),
            ),
        decreases b - j,
    {
        let ghost rest = s@.subrange(j as int, b as int);
        if s[j] == '\\' && j + 1 < b {
            assert(rest.subrange(2, rest.len() as int) =~= s@.subrange(j + 2, b as int));
            assert(out@.push(s@[j + 1]) + unescaped(s@.subrange(j + 2, b as int)) =~= out@ + (
            seq![rest[1]] + unescaped(rest.subrange(2, rest.len() as int))));
            push_char(&mut out, s[j + 1]);
            j = j + 2;
        } else {
            assert(rest.subrange(1, rest.len() as int) =~= s@.subrange(j + 1, b as int));
            assert(out@.push(s@[j as int]) + unescaped(s@.subrange(j + 1, b as int)) =~= out@ + (
            seq![rest[0]] + unescaped(rest.subrange(1, rest.len() as int))));
            push_char(&mut out, s[j]);
            j = j + 1;
        }
    }
    assert(s@.subrange(b as int, b as int) =~= Seq::<char>::empty());
    assert(out@ + unescaped(Seq::<char>::empty()) =~= out@);
    out
}

/// The leaf for quoted text delimited by `d`: `"` a terminal, `'` a
/// non-terminal, and a backtick a comment.
pub fn make_leaf(d: char, text: String) -> (r: Expr)
    ensures
        r@ == leaf(d, text@),
{
    if d == '"' {
        Expr::Term(text)
    } else if d == '\'' {
        Expr::NonTerm(text)
    } else {
        Expr::Comment(text)
    }
}

/// The container for a list opened by `c`: `[` a sequence, `{` a stack, and
/// `<` a choice.
pub fn make_container(c: char, items: Vec<Expr>) -> (r: Expr)
    ensures
        r@ == container(c, views(items@)),
{
    if c == '[' {
        Expr::Sequence(items)
    } else if c == '{' {
        Expr::Stack(items)
    } else {
        Expr::Choice(items)
    }
}

/// `inner` made optional.
pub fn make_optional(inner: Expr) -> (r: Expr)
    ensures
        r@ == Tree::Optional(Box::new(inner@)),
{
    Expr::Optional(Box::new(inner))
}

/// `body` repeated, with `separator` between repetitions.
pub fn make_repeat(body: Expr, separator: Expr) -> (r: Expr)
    ensures
        r@ == Tree::Repeat(Box::new(body@), Box::new(separator@)),
{
    Expr::Repeat(Box::new(body), Box::new(separator))
}

/// `inner` annotated with `label`.
pub fn make_labeled(inner: Expr, label: Expr) -> (r: Expr)
    ensures
        r@ == Tree::LabeledBox(Box::new(inner@), Box::new(label@)),
{
    Expr::LabeledBox(Box::new(inner), Box::new(label))
}

/// Appending an expression appends its model.
pub proof fn lemma_views_push(s: Seq<Expr>, e: Expr)
    ensures
        views(s.push(e)) == views(s).push(e@),
{
    assert(s.push(e).drop_last() =~= s);
}

} // verus!
