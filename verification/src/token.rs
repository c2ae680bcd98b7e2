//! Tokens of a command line and the error of the lexer.

use vstd::prelude::*;

verus! {

/// The five kinds of token.
#[derive(Clone, Copy, Debug, PartialEq, Eq, Structural)]
pub enum Kind {
    /// A pipe: the single character `|`.
    Pipe,
    /// An option: whatever starts with `-`, up to the next blank. A lone `-`
    /// is an option too.
    Opt,
    /// A single-quoted string: from a `'` through the next `'`.
    SingleQuoteString,
    /// A double-quoted string: from a `"` through the next `"`.
    DoubleQuoteString,
    /// A bare word: whatever starts with any other character, up to the next
    /// blank.
    Cmd,
}

/// A piece of the line and its kind.
#[derive(Debug, PartialEq, Eq)]
pub struct Token {
    /// The characters exactly as they stood in the line, quotes included.
    pub text: String,
    /// What the lexer took the piece for.
    pub kind: Kind,
}

/// What a token is in contracts: its characters and its kind.
pub struct TokenView {
    /// The characters of the token.
    pub text: Seq<char>,
    /// The kind of the token.
    pub kind: Kind,
}

impl View for Token {
    type V = TokenView;

    open spec fn view(&self) -> TokenView {
        TokenView { text: self.text@, kind: self.kind }
    }
}

impl DeepView for Token {
    type V = TokenView;

    open spec fn deep_view(&self) -> TokenView {
        self@
    }
}

/// The two quote characters that open a quoted string.
#[derive(Clone, Copy, Debug, PartialEq, Eq, Structural)]
pub enum Quote {
    /// `'`
    Single,
    /// `"`
    Double,
}

impl Quote {
    /// The quote character itself.
    pub open spec fn mark(self) -> char {
        match self {
            Quote::Single => '\'',
            Quote::Double => '"',
        }
    }

    /// The kind of the token that a matched pair of this quote makes.
    pub open spec fn kind(self) -> Kind {
        match self {
            Quote::Single => Kind::SingleQuoteString,
            Quote::Double => Kind::DoubleQuoteString,
        }
    }
}

/// The one error of the lexer: a quote that is never closed.
#[derive(Clone, Copy, Debug, PartialEq, Eq, Structural)]
pub struct UnmatchedQuote {
    /// Which quote was opened.
    pub quote: Quote,
    /// The zero-based index, in characters, of the opening quote.
    pub column: usize,
}

/// What an [`UnmatchedQuote`] is in contracts: the column is a mathematical
/// integer.
pub struct Unmatched {
    /// Which quote was opened.
    pub quote: Quote,
    /// The position of the opening quote.
    pub column: int,
}

impl View for UnmatchedQuote {
    type V = Unmatched;

    open spec fn view(&self) -> Unmatched {
        Unmatched { quote: self.quote, column: self.column as int }
    }
}

impl Token {
    /// A token with the given text and kind.
    pub fn new(text: String, kind: Kind) -> (token: Self)
        ensures
            token.text == text,
            token.kind == kind,
    {
        Self { text, kind }
    }
}

} // verus!
