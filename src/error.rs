use vstd::prelude::*;

verus! {

/// What the recognizer was looking for where it failed.
#[derive(Debug, Clone, Copy, PartialEq, Eq)]
pub enum Expected {
    /// The start of an expression: quoted text, `!` or an opening bracket.
    Expression,
    /// The closing delimiter of quoted text that was opened and never closed.
    Closing(char),
    /// A `,` or the closing bracket of a list.
    ListEnd(char),
}

/// Where and why recognition failed, as a position in the source's characters.
#[derive(Debug, Clone, Copy, PartialEq, Eq)]
pub struct Failure {
    pub pos: usize,
    pub expected: Expected,
}

/// What was expected, in words.
pub open spec fn description(e: Expected) -> Seq<char> {
    match e {
        Expected::Expression => "an expression"@,
        Expected::Closing('"') => "a closing double quote"@,
        Expected::Closing('\'') => "a closing single quote"@,
        Expected::Closing(_) => "a closing backtick"@,
        Expected::ListEnd(']') => "`,` or `]`"@,
        Expected::ListEnd('}') => "`,` or `}`"@,
        Expected::ListEnd(_) => "`,` or `>`"@,
    }
}

impl Expected {
    /// What was expected, in words.
    pub fn describe(&self) -> (r: &'static str)
        ensures
            r@ == description(*self),
    {
        match self {
            Expected::Expression => "an expression",
            Expected::Closing('"') => "a closing double quote",
            Expected::Closing('\'') => "a closing single quote",
            Expected::Closing(_) => "a closing backtick",
            Expected::ListEnd(']') => "`,` or `]`",
            Expected::ListEnd('}') => "`,` or `}`",
            Expected::ListEnd(_) => "`,` or `>`",
        }
    }
}

} // verus!
