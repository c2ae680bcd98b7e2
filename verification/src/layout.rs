//! The formatter: what each token looks like in the laid-out command, and the
//! whole command as the tokens' pieces one after another.

use vstd::prelude::*;
use crate::grammar::{Line, Span};
use crate::lexer::Expr;
use crate::text::white_space;
use crate::token::{Kind, Token, TokenView, UnmatchedQuote, Unmatched};

verus! {

/// What a pipe becomes: the pipe, a line break and an indent of four spaces.
pub open spec fn pipe_break() -> Seq<char> {
    seq!['|', '\n', ' ', ' ', ' ', ' ']
}

/// What stands before an option: a backslash that continues the line, a line
/// break and an indent of eight spaces.
pub open spec fn continuation() -> Seq<char> {
    seq!['\\', '\n', ' ', ' ', ' ', ' ', ' ', ' ', ' ', ' ']
}

/// The piece of output that one token makes, whatever stands around it.
pub open spec fn emit(token: TokenView) -> Seq<char> {
    match token.kind {
        Kind::Pipe => pipe_break(),
        Kind::Opt => continuation() + token.text + seq![' '],
        Kind::Cmd | Kind::SingleQuoteString | Kind::DoubleQuoteString => token.text + seq![' '],
    }
}

/// The laid-out command: the pieces of the tokens, in order, with nothing
/// between them and nothing taken away.
pub open spec fn render(tokens: Seq<TokenView>) -> Seq<char> {
    tokens.map_values(|token: TokenView| emit(token)).flatten()
}

impl Line {
    /// The whole line laid out, or its first unmatched quote.
    pub open spec fn format(self) -> Result<Seq<char>, Unmatched> {
        match self.parse() {
            Ok(tokens) => Ok(render(tokens)),
            Err(unmatched) => Err(unmatched),
        }
    }
}

/// No tokens make no output.
pub proof fn lemma_render_empty()
    ensures
        render(Seq::empty()) == Seq::<char>::empty(),
{
    assert(Seq::<TokenView>::empty().map_values(|token: TokenView| emit(token)) =~= Seq::<
        Seq<char>,
    >::empty());
}

/// One more token adds its own piece at the end and changes nothing before.
pub proof fn lemma_render_push(tokens: Seq<TokenView>, token: TokenView)
    ensures
        render(tokens.push(token)) == render(tokens) + emit(token),
{
    let pieces = tokens.map_values(|token: TokenView| emit(token));
    assert(tokens.push(token).map_values(|token: TokenView| emit(token)) =~= pieces.push(
        emit(token),
    ));
    pieces.lemma_flatten_push(emit(token));
}

/// Layout is a fold over the tokens: the output of two runs of tokens, one
/// after the other, is the output of the first followed by that of the second.
pub proof fn lemma_render_concat(first: Seq<TokenView>, second: Seq<TokenView>)
    ensures
        render(first + second) == render(first) + render(second),
{
    let a = first.map_values(|token: TokenView| emit(token));
    let b = second.map_values(|token: TokenView| emit(token));
    assert((first + second).map_values(|token: TokenView| emit(token)) =~= a + b);
    vstd::seq_lib::lemma_flatten_concat(a, b);
}

/// Whatever the tokens are, the output ends with a space: the one that
/// follows a word, an option or a quoted string, or the last of the indent
/// that follows a pipe.
pub proof fn lemma_render_ends_with_space(tokens: Seq<TokenView>)
    requires
        tokens.len() > 0,
    ensures
        render(tokens).len() > 0,
        render(tokens).last() == ' ',
{
    assert(tokens.drop_last().push(tokens.last()) =~= tokens);
    lemma_render_push(tokens.drop_last(), tokens.last());
}

/// Text that is empty or all white space has no tokens, and its layout is
/// empty.
pub proof fn lemma_whitespace_only(text: Seq<char>)
    requires
        forall|i: int| 0 <= i < text.len() ==> white_space(#[trigger] text[i]),
    ensures
        Line::of(text).parse() == Ok::<Seq<TokenView>, Unmatched>(Seq::empty()),
        Line::of(text).format() == Ok::<Seq<char>, Unmatched>(Seq::empty()),
{
    Line::of(text).lemma_blank_line();
    lemma_render_empty();
}

impl Expr {
    /// Lays the line out: its tokens are read once, in order, and each adds
    /// its piece to the output. An unmatched quote anywhere in the line fails
    /// the whole call: no part of the output is handed out.
    pub fn fmt(&self) -> (out: Result<String, UnmatchedQuote>)
        ensures
            self@.wf(),
            match self@.format() {
                Ok(text) => out matches Ok(s) && s@ == text,
                Err(unmatched) => out matches Err(error) && error@ == unmatched,
            },
    {
        let mut it = self.iter();
        let mut text = String::new();
        let ghost mut spans: Seq<Span> = Seq::empty();
        proof {
            lemma_render_empty();
        }
        loop
            invariant
                it.wf(),
                it.line() == self@,
                text@ == render(self@.tokens(spans)),
                self@.lex(0) == Line::after(spans, self@.lex(it.pos())),
            decreases self@.len() - it.pos(),
        {
            proof {
                self@.lemma_scan(it.pos());
                self@.lemma_lex_step(spans, it.pos());
            }
            let ghost step = self@.scan(it.pos());
            match it.next() {
                None => {
                    return Ok(text);
                },
                Some(Err(error)) => {
                    return Err(error);
                },
                Some(Ok(token)) => {
                    token.write_to(&mut text);
                    proof {
                        lemma_render_push(self@.tokens(spans), token@);
                        assert(self@.tokens(spans.push(step->Emit_0)) =~= self@.tokens(spans).push(
                            token@,
                        ));
                        spans = spans.push(step->Emit_0);
                    }
                },
            }
        }
    }
}

impl Token {
    /// Appends to `out` the piece of output that this token makes.
    pub fn write_to(&self, out: &mut String)
        ensures
            final(out)@ == old(out)@ + emit(self@),
    {
        match self.kind {
            Kind::Pipe => {
                proof {
                    reveal_strlit("|\n    ");
                }
                out.append("|\n    ");
            },
            Kind::Opt => {
                proof {
                    reveal_strlit("\\\n        ");
                    reveal_strlit(" ");
                }
                out.append("\\\n        ");
                out.append(self.text.as_str());
                out.append(" ");
            },
            Kind::Cmd | Kind::SingleQuoteString | Kind::DoubleQuoteString => {
                proof {
                    reveal_strlit(" ");
                }
                out.append(self.text.as_str());
                out.append(" ");
            },
        }
    }
}

} // verus!
