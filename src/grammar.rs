//! The notation's grammar, stated as a recursive-descent recognizer over the
//! source's characters. Whitespace may stand between any two tokens.
use vstd::prelude::*;

use crate::error::Expected;
use crate::expr::Tree;

verus! {

/// A parse of one construct: its tree and the position just after it, or the
/// position and cause of the first failure.
pub type Parse = Result<(Tree, int), (int, Expected)>;

/// A parse of the items of a bracketed list, up to and including its closing bracket.
pub type ListParse = Result<(Seq<Tree>, int), (int, Expected)>;

/// Characters that may stand between tokens.
pub open spec fn is_ws(c: char) -> bool {
    c == ' ' || c == '\t' || c == '\n' || c == '\r'
}

/// The first position at or after `i` that does not hold whitespace.
pub open spec fn skip_ws(s: Seq<char>, i: int) -> int
    decreases s.len() - i,
{
    if 0 <= i < s.len() && is_ws(s[i]) {
        skip_ws(s, i + 1)
    } else {
        i
    }
}

/// The characters that open (and close) quoted text.
pub open spec fn is_quote(c: char) -> bool {
    c == '"' || c == '\'' || c == '`'
}

/// The characters that open a bracketed list.
pub open spec fn is_open(c: char) -> bool {
    c == '[' || c == '{' || c == '<'
}

/// The bracket that closes the list opened by `c`.
pub open spec fn closing_of(c: char) -> char {
    if c == '[' {
        ']'
    } else if c == '{' {
        '}'
    } else {
        '>'
    }
}

/// Scanning quoted text from position `i` (just inside the opening
/// delimiter, or later): the position of the closing delimiter `d`, if there
/// is one. A backslash and the character after it are always taken as a pair.
pub open spec fn quoted_end(s: Seq<char>, i: int, d: char) -> Option<int>
    decreases s.len() - i,
{
    if i < 0 || i >= s.len() {
        None
    } else if s[i] == d {
        Some(i)
    } else if s[i] == '\\' && i + 1 < s.len() {
        quoted_end(s, i + 2, d)
    } else {
        quoted_end(s, i + 1, d)
    }
}

/// The text that raw quoted text stands for: each backslash is dropped and
/// the character after it is kept as it is.
pub open spec fn unescaped(raw: Seq<char>) -> Seq<char>
    decreases raw.len(),
{
    if raw.len() == 0 {
        Seq::empty()
    } else if raw[0] == '\\' && raw.len() >= 2 {
        seq![raw[1]] + unescaped(raw.subrange(2, raw.len() as int))
    } else {
        seq![raw[0]] + unescaped(raw.subrange(1, raw.len() as int))
    }
}

/// The leaf that quoted text with delimiter `d` and (unescaped) text `t` is.
pub open spec fn leaf(d: char, t: Seq<char>) -> Tree {
    if d == '"' {
        Tree::Term(t)
    } else if d == '\'' {
        Tree::NonTerm(t)
    } else {
        Tree::Comment(t)
    }
}

/// The container that a list opened by `c` with items `items` is.
pub open spec fn container(c: char, items: Seq<Tree>) -> Tree {
    if c == '[' {
        Tree::Sequence(items)
    } else if c == '{' {
        Tree::Stack(items)
    } else {
        Tree::Choice(items)
    }
}

/// A simple expression: quoted text, `!`, or a bracketed list.
pub open spec fn simple_expr(s: Seq<char>, i: int) -> Parse
    decreases s.len() - i, 1int,
{
    let j = skip_ws(s, i);
    if j < 0 || j >= s.len() {
        Err((j, Expected::Expression))
    } else if is_quote(s[j]) {
        match quoted_end(s, j + 1, s[j]) {
            None => Err((s.len() as int, Expected::Closing(s[j]))),
            Some(k) => Ok((leaf(s[j], unescaped(s.subrange(j + 1, k))), k + 1)),
        }
    } else if s[j] == '!' {
        Ok((Tree::Empty, j + 1))
    } else if is_open(s[j]) && i <= j {
        match list(s, j + 1, closing_of(s[j])) {
            Err(e) => Err(e),
            Ok((items, k)) => Ok((container(s[j], items), k)),
        }
    } else {
        Err((j, Expected::Expression))
    }
}

/// The items of a list, separated by `,`, and the closing bracket `close`.
/// (Every guard `i <= k` below always holds: recognition never moves back.)
pub open spec fn list(s: Seq<char>, i: int, close: char) -> ListParse
    decreases s.len() - i, 5int,
{
    match lbox_expr(s, i) {
        Err(e) => Err(e),
        Ok((t, j)) => {
            let k = skip_ws(s, j);
            if 0 <= k < s.len() && s[k] == close {
                Ok((seq![t], k + 1))
            } else if 0 <= k < s.len() && s[k] == ',' && i <= k {
                match list(s, k + 1, close) {
                    Err(e) => Err(e),
                    Ok((rest, m)) => Ok((seq![t] + rest, m)),
                }
            } else {
                Err((k, Expected::ListEnd(close)))
            }
        },
    }
}

/// The `?` suffixes after tree `t`, which ends at `j`: each wraps it once more.
pub open spec fn opt_suffixes(s: Seq<char>, t: Tree, j: int) -> (Tree, int)
    decreases s.len() - j,
{
    let k = skip_ws(s, j);
    if 0 <= k < s.len() && s[k] == '?' && j <= k {
        opt_suffixes(s, Tree::Optional(Box::new(t)), k + 1)
    } else {
        (t, j)
    }
}

/// A simple expression and its `?` suffixes.
pub open spec fn opt_expr(s: Seq<char>, i: int) -> Parse
    decreases s.len() - i, 2int,
{
    match simple_expr(s, i) {
        Err(e) => Err(e),
        Ok((t, j)) => Ok(opt_suffixes(s, t, j)),
    }
}

/// An optional expression, then at most one `*` and a separator.
pub open spec fn rpt_expr(s: Seq<char>, i: int) -> Parse
    decreases s.len() - i, 3int,
{
    match opt_expr(s, i) {
        Err(e) => Err(e),
        Ok((t, j)) => {
            let k = skip_ws(s, j);
            if 0 <= k < s.len() && s[k] == '*' && i <= k {
                match opt_expr(s, k + 1) {
                    Err(e) => Err(e),
                    Ok((sep, m)) => Ok((Tree::Repeat(Box::new(t), Box::new(sep)), m)),
                }
            } else {
                Ok((t, j))
            }
        },
    }
}

/// A repeated expression, then at most one `#` and a label.
pub open spec fn lbox_expr(s: Seq<char>, i: int) -> Parse
    decreases s.len() - i, 4int,
{
    match rpt_expr(s, i) {
        Err(e) => Err(e),
        Ok((t, j)) => {
            let k = skip_ws(s, j);
            if 0 <= k < s.len() && s[k] == '#' && i <= k {
                match rpt_expr(s, k + 1) {
                    Err(e) => Err(e),
                    Ok((label, m)) => Ok((Tree::LabeledBox(Box::new(t), Box::new(label)), m)),
                }
            } else {
                Ok((t, j))
            }
        },
    }
}

/// The diagrams from position `i` to the end of the source, where `i` is
/// just after a diagram.
pub open spec fn more_diagrams(s: Seq<char>, i: int) -> Result<Seq<Tree>, (int, Expected)>
    decreases s.len() - i,
{
    let k = skip_ws(s, i);
    if k < 0 || k >= s.len() {
        Ok(Seq::empty())
    } else {
        match lbox_expr(s, k) {
            Err(e) => Err(e),
            Ok((t, j)) => if i < j <= s.len() {
                match more_diagrams(s, j) {
                    Err(e) => Err(e),
                    Ok(rest) => Ok(seq![t] + rest),
                }
            } else {
                Err((k, Expected::Expression))
            },
        }
    }
}

/// A whole document: one or more diagrams, with nothing else but whitespace.
pub open spec fn document(s: Seq<char>) -> Result<Seq<Tree>, (int, Expected)> {
    match lbox_expr(s, 0) {
        Err(e) => Err(e),
        Ok((t, j)) => if 0 < j {
            match more_diagrams(s, j) {
                Err(e) => Err(e),
                Ok(rest) => Ok(seq![t] + rest),
            }
        } else {
            Err((0, Expected::Expression))
        },
    }
}

} // verus!
