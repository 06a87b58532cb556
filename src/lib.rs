//! Compiles a small textual notation for syntax ("railroad") diagrams into
//! an expression tree that a diagram renderer can lay out.

pub mod diagram;
pub mod error;
pub mod expr;
pub mod grammar;
pub mod laws;
pub mod locality;
pub mod parser;
pub mod shape;
pub mod style;

pub use diagram::{compile, start_to_end, Diagram, Root, SyntaxError, Wrapped};
pub use error::Expected;
pub use expr::Expr;
pub use style::{Format, Stylesheet, Theme};
