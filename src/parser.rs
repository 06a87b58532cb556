//! The recognizer: executable recursive descent over the source's characters,
//! agreeing with the grammar's model at every construct. Each recognized
//! construct is handed to the shaping functions, which build its tree.
use vstd::prelude::*;

use crate::error::{Expected, Failure};
use crate::expr::{views, Expr, Tree};
use crate::grammar::{
    document, is_ws, lbox_expr, list, more_diagrams, opt_expr, opt_suffixes, quoted_end, rpt_expr,
    simple_expr, skip_ws, ListParse, Parse,
};
use crate::shape::{
    lemma_views_push, make_container, make_labeled, make_leaf, make_optional, make_repeat, unescape,
};

verus! {

/// An executable parse result and its model say the same.
pub open spec fn agrees(r: Result<(Expr, usize), Failure>, m: Parse) -> bool {
    match r {
        Ok((e, j)) => m == Parse::Ok((e@, j as int)),
        Err(f) => m == Parse::Err((f.pos as int, f.expected)),
    }
}

/// An executable list parse and its model say the same.
pub open spec fn list_agrees(r: Result<(Vec<Expr>, usize), Failure>, m: ListParse) -> bool {
    match r {
        Ok((v, j)) => m == ListParse::Ok((views(v@), j as int)),
        Err(f) => m == ListParse::Err((f.pos as int, f.expected)),
    }
}

/// A successful parse from `i` ends after `i`; a failure lies between `i`
/// and the end of the source.
pub open spec fn progress<T>(r: Result<(T, usize), Failure>, i: int, n: int) -> bool {
    match r {
        Ok((_, j)) => i < j <= n,
        Err(f) => i <= f.pos <= n,
    }
}

/// Whether `c` may stand between tokens.
pub fn is_whitespace(c: char) -> (r: bool)
    ensures
        r == is_ws(c),
{
    c == ' ' || c == '\t' || c == '\n' || c == '\r'
}

/// The first position at or after `i` that does not hold whitespace.
pub fn skip_whitespace(s: &Vec<char>, i: usize) -> (r: usize)
    requires
        i <= s.len(),
    ensures
        r as int == skip_ws(s@, i as int),
        i <= r <= s.len(),
{
    let mut j: usize = i;
    while j < s.len() && is_whitespace(s[j])
        invariant
            i <= j <= s.len(),
            skip_ws(s@, j as int) == skip_ws(s@, i as int),
        decreases s.len() - j,
    {
        j = j + 1;
    }
    j
}

/// The position of the delimiter `d` that closes quoted text scanned from
/// `i`, if any; a backslash and the character after it are skipped as a pair.
pub fn find_closing(s: &Vec<char>, i: usize, d: char) -> (r: Option<usize>)
    requires
        i <= s.len(),
    ensures
        match r {
            None => quoted_end(s@, i as int, d) is None,
            Some(k) => quoted_end(s@, i as int, d) == Some(k as int) && i <= k < s.len(),
        },
{
    let mut j: usize = i;
    while j < s.len()
        invariant
            i <= j <= s.len(),
            quoted_end(s@, j as int, d) == quoted_end(s@, i as int, d),
        decreases s.len() - j,
    {
        if s[j] == d {
            return Some(j);
        }
        if s[j] == '\\' && j + 1 < s.len() {
            j = j + 2;
        } else {
            j = j + 1;
        }
    }
    None
}

/// A simple expression at or after `i`: quoted text, `!`, or a bracketed list.
pub fn parse_simple(s: &Vec<char>, i: usize) -> (r: Result<(Expr, usize), Failure>)
    requires
        i <= s.len(),
    ensures
        agrees(r, simple_expr(s@, i as int)),
        progress(r, i as int, s.len() as int),
    decreases s.len() - i, 1int,
{
    let j = skip_whitespace(s, i);
    if j >= s.len() {
        return Err(Failure { pos: j, expected: Expected::Expression });
    }
    let c = s[j];
    if c == '"' || c == '\'' || c == '`' {
        match find_closing(s, j + 1, c) {
            None => Err(Failure { pos: s.len(), expected: Expected::Closing(c) }),
            Some(k) => {
                let text = unescape(s, j + 1, k);
                Ok((make_leaf(c, text), k + 1))
            },
        }
    } else if c == '!' {
        Ok((Expr::Empty, j + 1))
    } else if c == '[' || c == '{' || c == '<' {
        let close = if c == '[' {
            ']'
        } else if c == '{' {
            '}'
        } else {
            '>'
        };
        match parse_list(s, j + 1, close) {
            Err(f) => Err(f),
            Ok((items, k)) => Ok((make_container(c, items), k)),
        }
    } else {
        Err(Failure { pos: j, expected: Expected::Expression })
    }
}

/// The items of a list from `i`, separated by `,`, and its closing bracket `close`.
pub fn parse_list(s: &Vec<char>, i: usize, close: char) -> (r: Result<(Vec<Expr>, usize), Failure>)
    requires
        i <= s.len(),
    ensures
        list_agrees(r, list(s@, i as int, close)),
        progress(r, i as int, s.len() as int),
    decreases s.len() - i, 5int,
{
    let mut items: Vec<Expr> = Vec::new();
    let mut p: usize = i;
    loop
        invariant
            i <= p <= s.len(),
            p == i ==> items.len() == 0,
            list(s@, i as int, close) == match list(s@, p as int, close) {
                Ok((rest, m)) => ListParse::Ok((views(items@) + rest, m)),
                Err(e) => ListParse::Err(e),
            },
        decreases s.len() - p,
    {
        let (t, j) = match parse_lbox(s, p) {
            Err(f) => return Err(f),
            Ok(x) => x,
        };
        let k = skip_whitespace(s, j);
        let ghost before = items@;
        if k < s.len() && s[k] == close {
            proof {
                lemma_views_push(before, t);
            }
            items.push(t);
            assert(views(before) + seq![t@] =~= views(items@));
            return Ok((items, k + 1));
        } else if k < s.len() && s[k] == ',' {
            proof {
                lemma_views_push(before, t);
                assert forall|rest: Seq<Tree>|
                    views(before) + (seq![t@] + rest) =~= views(before).push(t@) + rest by {}
            }
            items.push(t);
            p = k + 1;
        } else {
            return Err(Failure { pos: k, expected: Expected::ListEnd(close) });
        }
    }
}

/// A simple expression and its `?` suffixes, each wrapping it once more.
pub fn parse_opt(s: &Vec<char>, i: usize) -> (r: Result<(Expr, usize), Failure>)
    requires
        i <= s.len(),
    ensures
        agrees(r, opt_expr(s@, i as int)),
        progress(r, i as int, s.len() as int),
    decreases s.len() - i, 2int,
{
    let (mut t, mut j) = match parse_simple(s, i) {
        Err(f) => return Err(f),
        Ok(x) => x,
    };
    let ghost first = (t@, j as int);
    loop
        invariant
            i < j <= s.len(),
            opt_expr(s@, i as int) == Parse::Ok(opt_suffixes(s@, first.0, first.1)),
            opt_suffixes(s@, first.0, first.1) == opt_suffixes(s@, t@, j as int),
        decreases s.len() - j,
    {
        let k = skip_whitespace(s, j);
        if k < s.len() && s[k] == '?' {
            t = make_optional(t);
            j = k + 1;
        } else {
            return Ok((t, j));
        }
    }
}

/// An optional expression, then at most one `*` and its separator.
pub fn parse_rpt(s: &Vec<char>, i: usize) -> (r: Result<(Expr, usize), Failure>)
    requires
        i <= s.len(),
    ensures
        agrees(r, rpt_expr(s@, i as int)),
        progress(r, i as int, s.len() as int),
    decreases s.len() - i, 3int,
{
    let (t, j) = match parse_opt(s, i) {
        Err(f) => return Err(f),
        Ok(x) => x,
    };
    let k = skip_whitespace(s, j);
    if k < s.len() && s[k] == '*' {
        match parse_opt(s, k + 1) {
            Err(f) => Err(f),
            Ok((sep, m)) => Ok((make_repeat(t, sep), m)),
        }
    } else {
        Ok((t, j))
    }
}

/// A repeated expression, then at most one `#` and its label.
pub fn parse_lbox(s: &Vec<char>, i: usize) -> (r: Result<(Expr, usize), Failure>)
    requires
        i <= s.len(),
    ensures
        agrees(r, lbox_expr(s@, i as int)),
        progress(r, i as int, s.len() as int),
    decreases s.len() - i, 4int,
{
    let (t, j) = match parse_rpt(s, i) {
        Err(f) => return Err(f),
        Ok(x) => x,
    };
    let k = skip_whitespace(s, j);
    if k < s.len() && s[k] == '#' {
        match parse_rpt(s, k + 1) {
            Err(f) => Err(f),
            Ok((label, m)) => Ok((make_labeled(t, label), m)),
        }
    } else {
        Ok((t, j))
    }
}

/// All diagrams of a document: one or more, with only whitespace between
/// and around them.
pub fn parse_document(s: &Vec<char>) -> (r: Result<Vec<Expr>, Failure>)
    ensures
        match r {
            Ok(v) => document(s@) == Result::<Seq<Tree>, (int, Expected)>::Ok(views(v@)),
            Err(f) => document(s@) == Result::<Seq<Tree>, (int, Expected)>::Err(
                (f.pos as int, f.expected),
            ) && f.pos <= s.len(),
        },
{
    let (t, mut j) = match parse_lbox(s, 0) {
        Err(f) => return Err(f),
        Ok(x) => x,
    };
    let mut trees: Vec<Expr> = Vec::new();
    proof {
        lemma_views_push(trees@, t);
    }
    trees.push(t);
    assert(views(trees@) =~= seq![t@]);
    loop
        invariant
            0 < j <= s.len(),
            document(s@) == match more_diagrams(s@, j as int) {
                Ok(rest) => Result::<Seq<Tree>, (int, Expected)>::Ok(views(trees@) + rest),
                Err(e) => Result::<Seq<Tree>, (int, Expected)>::Err(e),
            },
        decreases s.len() - j,
    {
        let k = skip_whitespace(s, j);
        if k >= s.len() {
            assert(views(trees@) + Seq::<Tree>::empty() =~= views(trees@));
            return Ok(trees);
        }
        let (t, m) = match parse_lbox(s, k) {
            Err(f) => return Err(f),
            Ok(x) => x,
        };
        let ghost before = trees@;
        proof {
            lemma_views_push(before, t);
            assert forall|rest: Seq<Tree>|
                views(before) + (seq![t@] + rest) =~= views(before).push(t@) + rest by {}
        }
        trees.push(t);
        j = m;
    }
}

} // verus!
