//! Compiling a whole document: recognition, then framing each top-level
//! diagram between start and end markers for the renderer.
use vstd::prelude::*;

use crate::error::{description, Expected};
use crate::expr::{views, Expr, Tree};
use crate::grammar::document;
use crate::parser::parse_document;
use crate::expr::lemma_views_index;
use crate::shape::push_char;

verus! {

/// One top-level diagram as the renderer draws it: a start marker, `inner`,
/// and an end marker, in a row.
#[derive(Debug, PartialEq, Eq)]
pub struct Wrapped {
    pub inner: Expr,
}

/// The tree handed to the renderer.
#[derive(Debug, PartialEq, Eq)]
pub enum Root {
    /// The document held one diagram.
    Single(Wrapped),
    /// The document held several diagrams, stacked vertically in source order.
    Grid(Vec<Wrapped>),
}

/// A compiled document, with the stylesheet that the renderer is to use.
#[derive(Debug, PartialEq, Eq)]
pub struct Diagram {
    pub root: Root,
    pub stylesheet: String,
}

/// The models of the expressions that a sequence of wrapped diagrams frames.
pub open spec fn inners(v: Seq<Wrapped>) -> Seq<Tree> {
    v.map_values(|w: Wrapped| w.inner@)
}

impl Root {
    /// The models of the top-level diagrams, in source order.
    pub open spec fn diagrams(&self) -> Seq<Tree> {
        match self {
            Root::Single(w) => seq![w.inner@],
            Root::Grid(v) => inners(v@),
        }
    }

    /// The number of top-level diagrams.
    pub fn len(&self) -> (r: usize)
        ensures
            r == self.diagrams().len(),
    {
        match self {
            Root::Single(_) => 1,
            Root::Grid(v) => v.len(),
        }
    }
}

/// A recognition failure, located by line and column (both from 1) and
/// optionally labelled with the name of the source it came from.
#[derive(Debug, Clone, PartialEq, Eq)]
pub struct SyntaxError {
    /// The position of the failure, counted in characters from 0.
    pub pos: usize,
    pub line: usize,
    pub column: usize,
    pub expected: Expected,
    pub path: Option<String>,
}

/// The line (from 1) on which position `pos` of `s` stands.
pub open spec fn line_of(s: Seq<char>, pos: int) -> int
    decreases pos,
{
    if pos <= 0 {
        1
    } else if s[pos - 1] == '\n' {
        line_of(s, pos - 1) + 1
    } else {
        line_of(s, pos - 1)
    }
}

/// The column (from 1) at which position `pos` of `s` stands.
pub open spec fn column_of(s: Seq<char>, pos: int) -> int
    decreases pos,
{
    if pos <= 0 {
        1
    } else if s[pos - 1] == '\n' {
        1
    } else {
        column_of(s, pos - 1) + 1
    }
}

/// The line and column of position `pos` of `s`.
pub fn line_column(s: &Vec<char>, pos: usize) -> (r: (usize, usize))
    requires
        pos <= s.len() < usize::MAX,
    ensures
        r.0 == line_of(s@, pos as int),
        r.1 == column_of(s@, pos as int),
{
    let mut line: usize = 1;
    let mut column: usize = 1;
    let mut k: usize = 0;
    while k < pos
        invariant
            k <= pos <= s.len() < usize::MAX,
            line == line_of(s@, k as int),
            column == column_of(s@, k as int),
            1 <= line <= k + 1,
            1 <= column <= k + 1,
        decreases pos - k,
    {
        if s[k] == '\n' {
            line = line + 1;
            column = 1;
        } else {
            column = column + 1;
        }
        k = k + 1;
    }
    (line, column)
}

/// The decimal digit `d`, for `d < 10`.
pub open spec fn digit(d: nat) -> char {
    seq!['0', '1', '2', '3', '4', '5', '6', '7', '8', '9'][d as int]
}

/// The decimal numeral of `n`, without leading zeros.
pub open spec fn decimal(n: nat) -> Seq<char>
    decreases n,
{
    if n < 10 {
        seq![digit(n)]
    } else {
        decimal(n / 10).push(digit(n % 10))
    }
}

fn digit_char(d: usize) -> (r: char)
    requires
        d < 10,
    ensures
        r == digit(d as nat),
{
    if d == 0 {
        '0'
    } else if d == 1 {
        '1'
    } else if d == 2 {
        '2'
    } else if d == 3 {
        '3'
    } else if d == 4 {
        '4'
    } else if d == 5 {
        '5'
    } else if d == 6 {
        '6'
    } else if d == 7 {
        '7'
    } else if d == 8 {
        '8'
    } else {
        '9'
    }
}

/// The decimal numeral of `n`.
pub fn to_decimal(n: usize) -> (r: String)
    ensures
        r@ == decimal(n as nat),
    decreases n,
{
    let mut s = if n < 10 {
        String::new()
    } else {
        to_decimal(n / 10)
    };
    push_char(&mut s, digit_char(n % 10));
    s
}

/// The text of a syntax error: led by its source's name when it has one.
pub open spec fn message_of(e: SyntaxError) -> Seq<char> {
    match e.path {
        Some(p) => p@ + ":"@ + decimal(e.line as nat) + ":"@ + decimal(e.column as nat)
            + ": expected "@ + description(e.expected),
        None => "line "@ + decimal(e.line as nat) + ", column "@ + decimal(e.column as nat)
            + ": expected "@ + description(e.expected),
    }
}

impl SyntaxError {
    /// The error in words, with its source's name, line and column.
    pub fn message(&self) -> (r: String)
        ensures
            r@ == message_of(*self),
    {
        let mut out = String::new();
        match &self.path {
            Some(p) => {
                out.append(p.as_str());
                out.append(":");
                out.append(to_decimal(self.line).as_str());
                out.append(":");
                out.append(to_decimal(self.column).as_str());
            },
            None => {
                out.append("line ");
                out.append(to_decimal(self.line).as_str());
                out.append(", column ");
                out.append(to_decimal(self.column).as_str());
            },
        }
        out.append(": expected ");
        out.append(self.expected.describe());
        out
    }

    /// The same failure, labelled with the name of its source.
    pub fn with_path(self, name: &str) -> (r: SyntaxError)
        ensures
            r.pos == self.pos,
            r.line == self.line,
            r.column == self.column,
            r.expected == self.expected,
            r.path matches Some(p) && p@ == name@,
    {
        SyntaxError { path: Some(name.to_string()), ..self }
    }
}

/// The characters of `src`, in order.
pub fn chars_of(src: &str) -> (r: Vec<char>)
    ensures
        r@ == src@,
{
    let mut v: Vec<char> = Vec::new();
    for c in it: src.chars()
        invariant
            v@ == it.seq().take(it.index() as int),
            it.seq() == src@,
    {
        v.push(c);
    }
    v
}

/// A top-level diagram framed between a start and an end marker.
pub fn start_to_end(root: Expr) -> (r: Wrapped)
    ensures
        r.inner@ == root@,
{
    Wrapped { inner: root }
}

/// Compiles a document into the tree handed to the renderer: each top-level
/// diagram framed between start and end markers, and several diagrams
/// stacked in source order. The stylesheet is passed through untouched.
pub fn compile(src: &str, stylesheet: &str) -> (r: Result<Diagram, SyntaxError>)
    requires
        src@.len() < usize::MAX,
    ensures
        match r {
            Ok(d) => {
                &&& document(src@) == Result::<Seq<Tree>, (int, Expected)>::Ok(d.root.diagrams())
                &&& (d.root is Single <==> d.root.diagrams().len() == 1)
                &&& d.stylesheet@ == stylesheet@
            },
            Err(e) => {
                &&& document(src@) == Result::<Seq<Tree>, (int, Expected)>::Err(
                    (e.pos as int, e.expected),
                )
                &&& e.line == line_of(src@, e.pos as int)
                &&& e.column == column_of(src@, e.pos as int)
                &&& e.path is None
            },
        },
{
    let chars = chars_of(src);
    match parse_document(&chars) {
        Err(f) => {
            let (line, column) = line_column(&chars, f.pos);
            Err(SyntaxError { pos: f.pos, line, column, expected: f.expected, path: None })
        },
        Ok(trees) => {
            let ghost models = views(trees@);
            proof {
                lemma_views_index(trees@);
            }
            let mut rest = trees;
            let mut framed: Vec<Wrapped> = Vec::new();
            while rest.len() > 0
                invariant
                    framed.len() + rest.len() == models.len(),
                    forall|i: int| 0 <= i < framed.len() ==> (#[trigger] framed@[i]).inner@ == models[i],
                    forall|i: int| 0 <= i < rest.len() ==> (#[trigger] rest@[i])@ == models[framed.len() + i],
                decreases rest.len(),
            {
                let t = rest.remove(0);
                framed.push(start_to_end(t));
            }
            assert(inners(framed@) =~= models);
            let root = if framed.len() == 1 {
                Root::Single(framed.remove(0))
            } else {
                Root::Grid(framed)
            };
            Ok(Diagram { root, stylesheet: stylesheet.to_string() })
        },
    }
}

} // verus!
