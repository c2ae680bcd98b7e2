//! Lays a one-line shell command out over several lines.
//!
//! A line is cut into tokens (pipes, options, quoted strings and bare words)
//! and the tokens are written out again: every pipeline stage on a line of its
//! own, every option on an indented continuation line.

pub mod grammar;
pub mod layout;
pub mod lexer;
pub mod report;
pub mod text;
pub mod token;

pub use lexer::{Expr, Iter};
pub use token::{Kind, Quote, Token, UnmatchedQuote};
