use vstd::prelude::*;

verus! {

/// The mathematical model of an expression: text as character sequences,
/// children as sequences.
pub enum Tree {
    Term(Seq<char>),
    NonTerm(Seq<char>),
    Comment(Seq<char>),
    Empty,
    Sequence(Seq<Tree>),
    Stack(Seq<Tree>),
    Choice(Seq<Tree>),
    Optional(Box<Tree>),
    Repeat(Box<Tree>, Box<Tree>),
    LabeledBox(Box<Tree>, Box<Tree>),
}

/// An expression of the diagram notation.
#[derive(Debug, PartialEq, Eq)]
pub enum Expr {
    /// A literal token, drawn as a terminal box.
    Term(String),
    /// A reference to a named production, drawn as a non-terminal box.
    NonTerm(String),
    /// A free-form annotation.
    Comment(String),
    /// A zero-width placeholder.
    Empty,
    /// Children drawn left to right.
    Sequence(Vec<Expr>),
    /// Children drawn top to bottom.
    Stack(Vec<Expr>),
    /// Mutually exclusive alternatives.
    Choice(Vec<Expr>),
    /// An expression that may be skipped.
    Optional(Box<Expr>),
    /// A body that may repeat, with a separator between repetitions.
    Repeat(Box<Expr>, Box<Expr>),
    /// An expression annotated with a label.
    LabeledBox(Box<Expr>, Box<Expr>),
}

impl Expr {
    pub open spec fn view(&self) -> Tree
        decreases self, 1int,
    {
        match self {
            Expr::Term(s) => Tree::Term(s@),
            Expr::NonTerm(s) => Tree::NonTerm(s@),
            Expr::Comment(s) => Tree::Comment(s@),
            Expr::Empty => Tree::Empty,
            Expr::Sequence(v) => Tree::Sequence(views(v@)),
            Expr::Stack(v) => Tree::Stack(views(v@)),
            Expr::Choice(v) => Tree::Choice(views(v@)),
            Expr::Optional(e) => Tree::Optional(Box::new(e.view())),
            Expr::Repeat(a, b) => Tree::Repeat(Box::new(a.view()), Box::new(b.view())),
            Expr::LabeledBox(a, b) => Tree::LabeledBox(Box::new(a.view()), Box::new(b.view())),
        }
    }
}

/// The models of a sequence of expressions, in order.
pub open spec fn views(s: Seq<Expr>) -> Seq<Tree>
    decreases s, 0int,
{
    if s.len() == 0 {
        Seq::empty()
    } else {
        views(s.drop_last()).push(s.last().view())
    }
}

/// The models of a sequence of expressions, one for each, at the same index.
pub proof fn lemma_views_index(s: Seq<Expr>)
    ensures
        views(s).len() == s.len(),
        forall|i: int| 0 <= i < s.len() ==> #[trigger] views(s)[i] == s[i]@,
    decreases s.len(),
{
    if s.len() > 0 {
        lemma_views_index(s.drop_last());
    }
}

} // verus!
