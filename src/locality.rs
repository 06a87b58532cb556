//! How recognition depends on its surroundings: a construct recognized in a
//! text is recognized the same way after more text is appended that does not
//! continue it, and the same way after text is put in front of it.
use vstd::prelude::*;

use crate::error::Expected;
use crate::expr::Tree;
use crate::grammar::{
    document, is_ws, lbox_expr, list, more_diagrams, opt_expr, opt_suffixes, quoted_end, rpt_expr,
    simple_expr, skip_ws, ListParse, Parse,
};

verus! {

/// Skipping whitespace from `j` (within the text) stops within the text, at a
/// character that is not whitespace or at the end, with only whitespace before.
pub proof fn lemma_skip_bounds(s: Seq<char>, j: int)
    requires
        0 <= j <= s.len(),
    ensures
        j <= skip_ws(s, j) <= s.len(),
        skip_ws(s, j) < s.len() ==> !is_ws(s[skip_ws(s, j)]),
        forall|k: int| j <= k < skip_ws(s, j) ==> is_ws(#[trigger] s[k]),
    decreases s.len() - j,
{
    if j < s.len() && is_ws(s[j]) {
        lemma_skip_bounds(s, j + 1);
    }
}

/// The postfix operators, which continue the construct before them.
pub open spec fn is_postfix(c: char) -> bool {
    c == '?' || c == '*' || c == '#'
}

/// `t` starts with `s`, and what follows `s` in `t` does not begin with a
/// postfix operator (whitespace aside).
pub open spec fn extends(s: Seq<char>, t: Seq<char>) -> bool {
    &&& s.len() <= t.len()
    &&& forall|k: int| 0 <= k < s.len() ==> #[trigger] t[k] == s[k]
    &&& skip_ws(t, s.len() as int) < t.len() ==> !is_postfix(t[skip_ws(t, s.len() as int)])
}

/// Where `t` starts with `s`, skipping whitespace agrees within `s`.
proof fn lemma_ext_skip(s: Seq<char>, t: Seq<char>, j: int)
    requires
        0 <= j <= s.len(),
        s.len() <= t.len(),
        forall|k: int| 0 <= k < s.len() ==> #[trigger] t[k] == s[k],
    ensures
        skip_ws(s, j) < s.len() ==> skip_ws(t, j) == skip_ws(s, j),
        skip_ws(s, j) >= s.len() ==> skip_ws(t, j) == skip_ws(t, s.len() as int),
    decreases s.len() - j,
{
    if j < s.len() {
        lemma_ext_skip(s, t, j + 1);
    }
}

/// Where `t` starts with `s`, quoted text closed in `s` is closed at the same place in `t`.
proof fn lemma_ext_quoted(s: Seq<char>, t: Seq<char>, i: int, d: char)
    requires
        0 <= i,
        s.len() <= t.len(),
        forall|k: int| 0 <= k < s.len() ==> #[trigger] t[k] == s[k],
        quoted_end(s, i, d) is Some,
    ensures
        quoted_end(t, i, d) == quoted_end(s, i, d),
        i <= quoted_end(s, i, d)->0 < s.len(),
    decreases s.len() - i,
{
    if i < s.len() && s[i] != d {
        if s[i] == '\\' && i + 1 < s.len() {
            lemma_ext_quoted(s, t, i + 2, d);
        } else {
            lemma_ext_quoted(s, t, i + 1, d);
        }
    }
}

/// Where `t` extends `s`, a construct recognized in `s` at `i` is
/// recognized in `t` the same way, ending after `i` and within `s`.
pub proof fn lemma_ext_simple(s: Seq<char>, t: Seq<char>, i: int)
    requires
        extends(s, t),
        0 <= i <= s.len(),
        simple_expr(s, i) is Ok,
    ensures
        simple_expr(t, i) == simple_expr(s, i),
        i < simple_expr(s, i)->Ok_0.1 <= s.len(),
    decreases s.len() - i, 1int,
{
    let j = skip_ws(s, i);
    lemma_skip_bounds(s, i);
    lemma_ext_skip(s, t, i);
    if s[j] == '"' || s[j] == '\'' || s[j] == '`' {
        lemma_ext_quoted(s, t, j + 1, s[j]);
        let k = quoted_end(s, j + 1, s[j])->0;
        assert(t.subrange(j + 1, k) =~= s.subrange(j + 1, k));
    } else if s[j] == '[' || s[j] == '{' || s[j] == '<' {
        let close = if s[j] == '[' {
            ']'
        } else if s[j] == '{' {
            '}'
        } else {
            '>'
        };
        lemma_ext_list(s, t, j + 1, close);
    }
}

/// Where `t` extends `s`, a list recognized in `s` is recognized in `t` the same way.
pub proof fn lemma_ext_list(s: Seq<char>, t: Seq<char>, i: int, close: char)
    requires
        extends(s, t),
        0 <= i <= s.len(),
        list(s, i, close) is Ok,
    ensures
        list(t, i, close) == list(s, i, close),
        i < list(s, i, close)->Ok_0.1 <= s.len(),
    decreases s.len() - i, 5int,
{
    lemma_ext_lbox(s, t, i);
    let j = lbox_expr(s, i)->Ok_0.1;
    lemma_skip_bounds(s, j);
    lemma_ext_skip(s, t, j);
    let k = skip_ws(s, j);
    if s[k] != close {
        lemma_ext_list(s, t, k + 1, close);
    }
}

/// Where `t` extends `s`, the `?` suffixes after a construct ending in `s` are the same in `t`.
pub proof fn lemma_ext_suffixes(s: Seq<char>, t: Seq<char>, x: Tree, j: int)
    requires
        extends(s, t),
        0 <= j <= s.len(),
    ensures
        opt_suffixes(t, x, j) == opt_suffixes(s, x, j),
        j <= opt_suffixes(s, x, j).1 <= s.len(),
    decreases s.len() - j,
{
    lemma_skip_bounds(s, j);
    lemma_ext_skip(s, t, j);
    lemma_skip_bounds(t, j);
    let k = skip_ws(s, j);
    if k < s.len() && s[k] == '?' {
        lemma_ext_suffixes(s, t, Tree::Optional(Box::new(x)), k + 1);
    }
}

/// Where `t` extends `s`, an optional expression recognized in `s` is recognized in `t` the same way.
pub proof fn lemma_ext_opt(s: Seq<char>, t: Seq<char>, i: int)
    requires
        extends(s, t),
        0 <= i <= s.len(),
        opt_expr(s, i) is Ok,
    ensures
        opt_expr(t, i) == opt_expr(s, i),
        i < opt_expr(s, i)->Ok_0.1 <= s.len(),
    decreases s.len() - i, 2int,
{
    lemma_ext_simple(s, t, i);
    let (x, j) = simple_expr(s, i)->Ok_0;
    lemma_ext_suffixes(s, t, x, j);
}

/// Where `t` extends `s`, a repeated expression recognized in `s` is recognized in `t` the same way.
pub proof fn lemma_ext_rpt(s: Seq<char>, t: Seq<char>, i: int)
    requires
        extends(s, t),
        0 <= i <= s.len(),
        rpt_expr(s, i) is Ok,
    ensures
        rpt_expr(t, i) == rpt_expr(s, i),
        i < rpt_expr(s, i)->Ok_0.1 <= s.len(),
    decreases s.len() - i, 3int,
{
    lemma_ext_opt(s, t, i);
    let j = opt_expr(s, i)->Ok_0.1;
    lemma_skip_bounds(s, j);
    lemma_ext_skip(s, t, j);
    lemma_skip_bounds(t, j);
    let k = skip_ws(s, j);
    if k < s.len() && s[k] == '*' {
        lemma_ext_opt(s, t, k + 1);
    }
}

/// Where `t` extends `s`, a labelled expression recognized in `s` is recognized in `t` the same way.
pub proof fn lemma_ext_lbox(s: Seq<char>, t: Seq<char>, i: int)
    requires
        extends(s, t),
        0 <= i <= s.len(),
        lbox_expr(s, i) is Ok,
    ensures
        lbox_expr(t, i) == lbox_expr(s, i),
        i < lbox_expr(s, i)->Ok_0.1 <= s.len(),
    decreases s.len() - i, 4int,
{
    lemma_ext_rpt(s, t, i);
    let j = rpt_expr(s, i)->Ok_0.1;
    lemma_skip_bounds(s, j);
    lemma_ext_skip(s, t, j);
    lemma_skip_bounds(t, j);
    let k = skip_ws(s, j);
    if k < s.len() && s[k] == '#' {
        lemma_ext_rpt(s, t, k + 1);
    }
}

/// A parse moved `n` positions further on.
pub open spec fn shift(r: Parse, n: int) -> Parse {
    match r {
        Ok((x, j)) => Ok((x, j + n)),
        Err((q, e)) => Err((q + n, e)),
    }
}

/// A list parse moved `n` positions further on.
pub open spec fn shift_list(r: ListParse, n: int) -> ListParse {
    match r {
        Ok((xs, j)) => Ok((xs, j + n)),
        Err((q, e)) => Err((q + n, e)),
    }
}

/// Text put in front moves skipping whitespace along with it.
proof fn lemma_shift_skip(p: Seq<char>, b: Seq<char>, i: int)
    requires
        0 <= i <= b.len(),
    ensures
        skip_ws(p + b, p.len() + i) == p.len() + skip_ws(b, i),
    decreases b.len() - i,
{
    if i < b.len() {
        assert((p + b)[p.len() + i] == b[i]);
        lemma_shift_skip(p, b, i + 1);
    }
}

/// Text put in front moves the end of quoted text along with it.
proof fn lemma_shift_quoted(p: Seq<char>, b: Seq<char>, i: int, d: char)
    requires
        0 <= i,
    ensures
        quoted_end(p + b, p.len() + i, d) == (match quoted_end(b, i, d) {
            Some(k) => Some(p.len() + k),
            None => None::<int>,
        }),
    decreases b.len() - i,
{
    if i < b.len() {
        assert((p + b)[p.len() + i] == b[i]);
        if i + 1 < b.len() {
            assert((p + b)[p.len() + i + 1] == b[i + 1]);
        }
        if b[i] == '\\' && i + 1 < b.len() {
            lemma_shift_quoted(p, b, i + 2, d);
        } else {
            lemma_shift_quoted(p, b, i + 1, d);
        }
    }
}

/// Text put in front moves every recognized construct along with it.
pub proof fn lemma_shift_simple(p: Seq<char>, b: Seq<char>, i: int)
    requires
        0 <= i <= b.len(),
    ensures
        simple_expr(p + b, p.len() + i) == shift(simple_expr(b, i), p.len() as int),
    decreases b.len() - i, 1int,
{
    let n = p.len() as int;
    let s = p + b;
    lemma_shift_skip(p, b, i);
    lemma_skip_bounds(b, i);
    let j = skip_ws(b, i);
    if j < b.len() {
        assert(s[n + j] == b[j]);
        if b[j] == '"' || b[j] == '\'' || b[j] == '`' {
            lemma_shift_quoted(p, b, j + 1, b[j]);
            if let Some(k) = quoted_end(b, j + 1, b[j]) {
                lemma_ext_quoted(b, b, j + 1, b[j]);
                assert(s.subrange(n + j + 1, n + k) =~= b.subrange(j + 1, k));
            }
        } else if b[j] == '[' || b[j] == '{' || b[j] == '<' {
            let close = if b[j] == '[' {
                ']'
            } else if b[j] == '{' {
                '}'
            } else {
                '>'
            };
            lemma_shift_list(p, b, j + 1, close);
        }
    }
}

/// Text put in front moves a list's parse along with it.
pub proof fn lemma_shift_list(p: Seq<char>, b: Seq<char>, i: int, close: char)
    requires
        0 <= i <= b.len(),
    ensures
        list(p + b, p.len() + i, close) == shift_list(list(b, i, close), p.len() as int),
    decreases b.len() - i, 5int,
{
    let n = p.len() as int;
    let s = p + b;
    lemma_shift_lbox(p, b, i);
    if let Ok((x, j)) = lbox_expr(b, i) {
        lemma_ext_lbox(b, b, i);
        lemma_shift_skip(p, b, j);
        lemma_skip_bounds(b, j);
        let k = skip_ws(b, j);
        if k < b.len() {
            assert(s[n + k] == b[k]);
            if b[k] == ',' {
                lemma_shift_list(p, b, k + 1, close);
            }
        }
    }
}

/// Text put in front moves the `?` suffixes along with it.
pub proof fn lemma_shift_suffixes(p: Seq<char>, b: Seq<char>, x: Tree, j: int)
    requires
        0 <= j <= b.len(),
    ensures
        opt_suffixes(p + b, x, p.len() + j) == (opt_suffixes(b, x, j).0, opt_suffixes(b, x, j).1 + p.len()),
    decreases b.len() - j,
{
    let n = p.len() as int;
    lemma_shift_skip(p, b, j);
    lemma_skip_bounds(b, j);
    let k = skip_ws(b, j);
    if k < b.len() {
        assert((p + b)[n + k] == b[k]);
        if b[k] == '?' {
            lemma_shift_suffixes(p, b, Tree::Optional(Box::new(x)), k + 1);
        }
    }
}

/// Text put in front moves an optional expression's parse along with it.
pub proof fn lemma_shift_opt(p: Seq<char>, b: Seq<char>, i: int)
    requires
        0 <= i <= b.len(),
    ensures
        opt_expr(p + b, p.len() + i) == shift(opt_expr(b, i), p.len() as int),
    decreases b.len() - i, 2int,
{
    lemma_shift_simple(p, b, i);
    if let Ok((x, j)) = simple_expr(b, i) {
        lemma_ext_simple(b, b, i);
        lemma_shift_suffixes(p, b, x, j);
    }
}

/// Text put in front moves a repeated expression's parse along with it.
pub proof fn lemma_shift_rpt(p: Seq<char>, b: Seq<char>, i: int)
    requires
        0 <= i <= b.len(),
    ensures
        rpt_expr(p + b, p.len() + i) == shift(rpt_expr(b, i), p.len() as int),
    decreases b.len() - i, 3int,
{
    let n = p.len() as int;
    lemma_shift_opt(p, b, i);
    if let Ok((x, j)) = opt_expr(b, i) {
        lemma_ext_opt(b, b, i);
        lemma_shift_skip(p, b, j);
        lemma_skip_bounds(b, j);
        let k = skip_ws(b, j);
        if k < b.len() {
            assert((p + b)[n + k] == b[k]);
            if b[k] == '*' {
                lemma_shift_opt(p, b, k + 1);
            }
        }
    }
}

/// Text put in front moves a labelled expression's parse along with it.
pub proof fn lemma_shift_lbox(p: Seq<char>, b: Seq<char>, i: int)
    requires
        0 <= i <= b.len(),
    ensures
        lbox_expr(p + b, p.len() + i) == shift(lbox_expr(b, i), p.len() as int),
    decreases b.len() - i, 4int,
{
    let n = p.len() as int;
    lemma_shift_rpt(p, b, i);
    if let Ok((x, j)) = rpt_expr(b, i) {
        lemma_ext_rpt(b, b, i);
        lemma_shift_skip(p, b, j);
        lemma_skip_bounds(b, j);
        let k = skip_ws(b, j);
        if k < b.len() {
            assert((p + b)[n + k] == b[k]);
            if b[k] == '#' {
                lemma_shift_rpt(p, b, k + 1);
            }
        }
    }
}

/// A whole run of diagrams moves along with text put in front of it.
pub proof fn lemma_shift_more(p: Seq<char>, b: Seq<char>, i: int)
    requires
        0 <= i <= b.len(),
    ensures
        more_diagrams(p + b, p.len() + i) == (match more_diagrams(b, i) {
            Ok(xs) => Result::<Seq<Tree>, (int, Expected)>::Ok(xs),
            Err((q, e)) => Result::<Seq<Tree>, (int, Expected)>::Err((q + p.len(), e)),
        }),
    decreases b.len() - i,
{
    let n = p.len() as int;
    lemma_shift_skip(p, b, i);
    lemma_skip_bounds(b, i);
    let k = skip_ws(b, i);
    if k < b.len() {
        lemma_shift_lbox(p, b, k);
        if let Ok((x, j)) = lbox_expr(b, k) {
            lemma_ext_lbox(b, b, k);
            lemma_shift_more(p, b, j);
        }
    }
}

/// Skipping whitespace from a position that is already past it stays there.
proof fn lemma_skip_idem(s: Seq<char>, i: int)
    requires
        0 <= i <= s.len(),
    ensures
        skip_ws(s, skip_ws(s, i)) == skip_ws(s, i),
{
    lemma_skip_bounds(s, i);
}

/// Whitespace before a diagram changes nothing in how it is recognized.
pub proof fn lemma_lbox_after_ws(s: Seq<char>, i: int)
    requires
        0 <= i <= s.len(),
    ensures
        lbox_expr(s, i) == lbox_expr(s, skip_ws(s, i)),
{
    let z = skip_ws(s, i);
    lemma_skip_bounds(s, i);
    lemma_skip_idem(s, i);
    assert(simple_expr(s, i) == simple_expr(s, z));
    assert(opt_expr(s, i) == opt_expr(s, z));
    if let Ok((x, j)) = opt_expr(s, z) {
        lemma_ext_opt(s, s, z);
        lemma_skip_bounds(s, j);
    }
    assert(rpt_expr(s, i) == rpt_expr(s, z));
    if let Ok((x, j)) = rpt_expr(s, z) {
        lemma_ext_rpt(s, s, z);
        lemma_skip_bounds(s, j);
    }
}

/// Skipping whitespace across a run of whitespace.
proof fn lemma_skip_run(s: Seq<char>, i: int, m: int)
    requires
        0 <= i <= m <= s.len(),
        forall|k: int| i <= k < m ==> is_ws(#[trigger] s[k]),
    ensures
        skip_ws(s, i) == skip_ws(s, m),
    decreases m - i,
{
    if i < m {
        lemma_skip_run(s, i + 1, m);
    }
}

/// After the diagrams of `a` from `j` on come those of `b`, when only the
/// whitespace `w` stands between the two.
pub proof fn lemma_concat_more(a: Seq<char>, w: Seq<char>, b: Seq<char>, j: int)
    requires
        0 <= j <= a.len(),
        more_diagrams(a, j) is Ok,
        document(b) is Ok,
        forall|k: int| 0 <= k < w.len() ==> is_ws(#[trigger] w[k]),
    ensures
        more_diagrams(a + w + b, j) == Result::<Seq<Tree>, (int, Expected)>::Ok(
            more_diagrams(a, j)->Ok_0 + document(b)->Ok_0,
        ),
        extends(a, a + w + b),
    decreases a.len() - j,
{
    let s = a + w + b;
    let p = a + w;
    let n = p.len() as int;
    assert(s == p + b);
    assert forall|k: int| 0 <= k < a.len() implies #[trigger] s[k] == a[k] by {}
    assert forall|k: int| a.len() <= k < n implies is_ws(#[trigger] s[k]) by {
        assert(s[k] == w[k - a.len()]);
    }
    lemma_skip_run(s, a.len() as int, n);
    lemma_shift_skip(p, b, 0);
    lemma_skip_bounds(b, 0);
    let z = skip_ws(b, 0);
    // `b` begins, after whitespace, with an expression, so no postfix operator.
    assert(lbox_expr(b, 0) is Ok);
    assert(rpt_expr(b, 0) is Ok);
    assert(opt_expr(b, 0) is Ok);
    assert(simple_expr(b, 0) is Ok);
    assert(z < b.len());
    assert(s[n + z] == b[z]);
    assert(extends(a, s));
    lemma_skip_bounds(a, j);
    lemma_ext_skip(a, s, j);
    let k = skip_ws(a, j);
    if k < a.len() {
        let (x, m) = lbox_expr(a, k)->Ok_0;
        lemma_ext_lbox(a, s, k);
        lemma_concat_more(a, w, b, m);
        assert(seq![x] + (more_diagrams(a, m)->Ok_0 + document(b)->Ok_0) =~= (seq![x]
            + more_diagrams(a, m)->Ok_0) + document(b)->Ok_0);
    } else {
        lemma_lbox_after_ws(b, 0);
        lemma_shift_lbox(p, b, z);
        let (x, m) = lbox_expr(b, 0)->Ok_0;
        lemma_ext_lbox(b, b, 0);
        lemma_shift_more(p, b, m);
        assert(Seq::<Tree>::empty() + document(b)->Ok_0 =~= document(b)->Ok_0);
    }
}

} // verus!
