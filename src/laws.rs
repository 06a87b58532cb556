//! Properties of the notation that hold for every source text.
use vstd::prelude::*;

use crate::diagram::Root;
use crate::error::Expected;
use crate::expr::Tree;
use crate::locality::{lemma_concat_more, lemma_ext_lbox, lemma_skip_bounds};
use crate::grammar::{
    document, more_diagrams, is_quote, is_ws, lbox_expr, opt_expr, quoted_end, rpt_expr, simple_expr, skip_ws,
};

verus! {

/// Skipping whitespace over a text of nothing but whitespace reaches its end.
proof fn lemma_skip_blank(s: Seq<char>, i: int)
    requires
        0 <= i <= s.len(),
        forall|k: int| i <= k < s.len() ==> is_ws(#[trigger] s[k]),
    ensures
        skip_ws(s, i) == s.len(),
    decreases s.len() - i,
{
    if i < s.len() {
        lemma_skip_blank(s, i + 1);
    }
}

/// Quoted text whose delimiter never comes again is never closed.
proof fn lemma_never_closed(s: Seq<char>, i: int, d: char)
    requires
        0 <= i,
        forall|k: int| i <= k < s.len() ==> #[trigger] s[k] != d,
    ensures
        quoted_end(s, i, d) is None,
    decreases s.len() - i,
{
    if i < s.len() {
        if s[i] == '\\' && i + 1 < s.len() {
            lemma_never_closed(s, i + 2, d);
        } else {
            lemma_never_closed(s, i + 1, d);
        }
    }
}

/// A source that is empty or holds nothing but whitespace has no diagram:
/// it fails at its end, where an expression was expected.
pub proof fn lemma_blank_document_fails(s: Seq<char>)
    requires
        forall|k: int| 0 <= k < s.len() ==> is_ws(#[trigger] s[k]),
    ensures
        document(s) == Result::<Seq<Tree>, (int, Expected)>::Err(
            (s.len() as int, Expected::Expression),
        ),
{
    lemma_skip_blank(s, 0);
    assert(simple_expr(s, 0) is Err);
    assert(opt_expr(s, 0) is Err);
    assert(rpt_expr(s, 0) is Err);
    assert(lbox_expr(s, 0) is Err);
}

/// A source whose first token opens quoted text that is never closed fails at
/// its end, past the opening delimiter, where the closing delimiter was expected.
pub proof fn lemma_unterminated_quote_fails(s: Seq<char>, j: int)
    requires
        0 <= j < s.len(),
        is_quote(s[j]),
        forall|k: int| 0 <= k < j ==> is_ws(#[trigger] s[k]),
        forall|k: int| j < k < s.len() ==> #[trigger] s[k] != s[j],
    ensures
        document(s) == Result::<Seq<Tree>, (int, Expected)>::Err(
            (s.len() as int, Expected::Closing(s[j])),
        ),
{
    assert(skip_ws(s, 0) == j) by {
        lemma_skip_to(s, 0, j);
    }
    lemma_never_closed(s, j + 1, s[j]);
    assert(simple_expr(s, 0) is Err);
    assert(opt_expr(s, 0) is Err);
    assert(rpt_expr(s, 0) is Err);
    assert(lbox_expr(s, 0) is Err);
}

/// Skipping whitespace from `i` stops at `j` when only whitespace lies
/// between them and `j` holds something else.
proof fn lemma_skip_to(s: Seq<char>, i: int, j: int)
    requires
        0 <= i <= j < s.len(),
        !is_ws(s[j]),
        forall|k: int| i <= k < j ==> is_ws(#[trigger] s[k]),
    ensures
        skip_ws(s, i) == j,
    decreases j - i,
{
    if i < j {
        lemma_skip_to(s, i + 1, j);
    }
}

/// A document that the grammar accepts holds at least one diagram.
pub proof fn lemma_accepted_document_has_diagram(s: Seq<char>)
    requires
        document(s) is Ok,
    ensures
        document(s)->Ok_0.len() >= 1,
{
}

/// Compiling depends on the source text alone: two compilations of one
/// source give the same top-level diagrams, with the same trees.
pub proof fn lemma_compile_deterministic(s: Seq<char>, a: Root, b: Root)
    requires
        document(s) == Result::<Seq<Tree>, (int, Expected)>::Ok(a.diagrams()),
        document(s) == Result::<Seq<Tree>, (int, Expected)>::Ok(b.diagrams()),
    ensures
        a.diagrams() == b.diagrams(),
        a.diagrams().len() == 1 <==> b.diagrams().len() == 1,
{
}

/// Documents written one after another, with only whitespace between them,
/// form one document: its top-level diagrams are those of the first followed
/// by those of the second, so the count of diagrams adds up.
pub proof fn lemma_documents_concatenate(a: Seq<char>, w: Seq<char>, b: Seq<char>)
    requires
        document(a) is Ok,
        document(b) is Ok,
        forall|k: int| 0 <= k < w.len() ==> is_ws(#[trigger] w[k]),
    ensures
        document(a + w + b) == Result::<Seq<Tree>, (int, Expected)>::Ok(
            document(a)->Ok_0 + document(b)->Ok_0,
        ),
        document(a + w + b)->Ok_0.len() == document(a)->Ok_0.len() + document(b)->Ok_0.len(),
{
    let s = a + w + b;
    let (x, j) = lbox_expr(a, 0)->Ok_0;
    lemma_skip_bounds(a, a.len() as int);
    lemma_ext_lbox(a, a, 0);
    lemma_concat_more(a, w, b, j);
    lemma_ext_lbox(a, s, 0);
    assert(seq![x] + (more_diagrams(a, j)->Ok_0 + document(b)->Ok_0) =~= (seq![x]
        + more_diagrams(a, j)->Ok_0) + document(b)->Ok_0);
}

} // verus!
