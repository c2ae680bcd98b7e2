//! The executable lexer: a line held in memory and a cursor that walks it.

use vstd::prelude::*;
use crate::grammar::{Line, Span, Step};
use crate::text::{classify, collect};
use crate::token::{Kind, Quote, Token, UnmatchedQuote};

verus! {

/// One line of command text, ready to be cut into tokens.
///
/// Beside each character the line keeps a flag that says whether the
/// character is blank. [`Expr::new`] sets the flags by Unicode white space;
/// [`Expr::with_blanks`] takes them from the caller.
pub struct Expr {
    content: Vec<char>,
    blank: Vec<bool>,
}

impl View for Expr {
    type V = Line;

    closed spec fn view(&self) -> Line {
        Line { chars: self.content@, blank: self.blank@ }
    }
}

/// A forward-only cursor over the tokens of an [`Expr`].
///
/// `[start, end)` is the span of the token under construction. Between two
/// calls of [`Iter::next`] it is empty: the next token is looked for exactly
/// where the last one ended.
pub struct Iter<'a> {
    start: usize,
    end: usize,
    expr: &'a Expr,
}

impl Expr {
    #[verifier::type_invariant]
    spec fn inv(&self) -> bool {
        self.blank@.len() == self.content@.len()
    }

    /// The line `content`, in which white space separates the tokens.
    pub fn new(content: &str) -> (expr: Self)
        ensures
            expr@ == Line::of(content@),
    {
        let (content, blank) = classify(content);
        Expr { content, blank }
    }

    /// The line `content`, in which the characters flagged in `blank`
    /// separate the tokens. The result is `None` unless there is exactly one
    /// flag for each character.
    pub fn with_blanks(content: Vec<char>, blank: Vec<bool>) -> (expr: Option<Self>)
        ensures
            expr is Some <==> content@.len() == blank@.len(),
            expr matches Some(e) ==> e@ == (Line { chars: content@, blank: blank@ }),
    {
        if content.len() == blank.len() {
            Some(Expr { content, blank })
        } else {
            None
        }
    }

    /// A cursor at the start of the line.
    pub fn iter(&self) -> (iter: Iter<'_>)
        ensures
            iter.wf(),
            iter.line() == self@,
            iter.pos() == 0,
    {
        proof {
            use_type_invariant(self);
        }
        Iter { start: 0, end: 0, expr: self }
    }

    /// All the tokens of the line, in order, or its first unmatched quote.
    pub fn tokens(&self) -> (all: Result<Vec<Token>, UnmatchedQuote>)
        ensures
            self@.wf(),
            match self@.parse() {
                Ok(tokens) => all matches Ok(found) && found.deep_view() == tokens,
                Err(unmatched) => all matches Err(error) && error@ == unmatched,
            },
    {
        let mut it = self.iter();
        let mut found: Vec<Token> = Vec::new();
        let ghost mut spans: Seq<Span> = Seq::empty();
        loop
            invariant
                it.wf(),
                it.line() == self@,
                found.deep_view() == self@.tokens(spans),
                self@.lex(0) == Line::after(spans, self@.lex(it.pos())),
            decreases self@.len() - it.pos(),
        {
            proof {
                self@.lemma_scan(it.pos());
                self@.lemma_lex_step(spans, it.pos());
            }
            let ghost step = self@.scan(it.pos());
            match it.next() {
                None => {
                    return Ok(found);
                },
                Some(Err(error)) => {
                    return Err(error);
                },
                Some(Ok(token)) => {
                    let ghost before = found.deep_view();
                    found.push(token);
                    proof {
                        spans = spans.push(step->Emit_0);
                        assert(self@.tokens(spans) =~= before.push(token@));
                    }
                },
            }
        }
    }

    /// Walks over the positions from `from` on whose blank flag is `flag`.
    fn run_end(&self, flag: bool, from: usize) -> (end: usize)
        requires
            from <= self@.len(),
        ensures
            end == self@.run_end(flag, from as int),
            from <= end <= self@.len(),
    {
        proof {
            use_type_invariant(self);
            self@.lemma_run_end(flag, from as int);
        }
        let mut end: usize = from;
        while end < self.blank.len() && self.blank[end] == flag
            invariant
                from <= end <= self.blank@.len(),
                self@.run_end(flag, end as int) == self@.run_end(flag, from as int),
            decreases self.blank@.len() - end,
        {
            end += 1;
        }
        end
    }

    /// Walks from `from` to the first `c`, or to the end of the line.
    fn find(&self, c: char, from: usize) -> (at: usize)
        requires
            from <= self@.len(),
        ensures
            at == self@.find(c, from as int),
            from <= at <= self@.len(),
    {
        proof {
            self@.lemma_find(c, from as int);
        }
        let mut at: usize = from;
        while at < self.content.len() && self.content[at] != c
            invariant
                from <= at <= self.content@.len(),
                self@.find(c, at as int) == self@.find(c, from as int),
            decreases self.content@.len() - at,
        {
            at += 1;
        }
        at
    }

    /// The token that stands at `[start, end)`.
    fn cut(&self, start: usize, end: usize, kind: Kind) -> (token: Token)
        requires
            start <= end <= self@.len(),
        ensures
            token@ == self@.token(Span { start: start as int, end: end as int, kind }),
    {
        Token::new(collect(&self.content, start, end), kind)
    }
}

impl<'a> Iter<'a> {
    #[verifier::type_invariant]
    spec fn inv(&self) -> bool {
        &&& self.start == self.end
        &&& self.end <= self.expr.content@.len()
        &&& self.expr.inv()
    }

    /// The line that the cursor walks.
    pub closed spec fn line(&self) -> Line {
        self.expr@
    }

    /// Where the cursor stands.
    pub closed spec fn pos(&self) -> int {
        self.end as int
    }

    /// The cursor stands inside its line or at its end.
    pub open spec fn wf(&self) -> bool {
        &&& self.line().wf()
        &&& 0 <= self.pos() <= self.line().len()
    }

    /// Produces the next token and moves the cursor behind it.
    ///
    /// At the end of the line the result is `None`, and stays so. At a quote
    /// that is never closed the result is the error, and the cursor rests on
    /// that quote: every later call reports the same error.
    pub fn next(&mut self) -> (item: Option<Result<Token, UnmatchedQuote>>)
        ensures
            final(self).wf(),
            final(self).line() == old(self).line(),
            match old(self).line().scan(old(self).pos()) {
                Step::End => item is None && final(self).pos() == old(self).line().len(),
                Step::Emit(span) => {
                    &&& item matches Some(Ok(token))
                    &&& token@ == old(self).line().token(span)
                    &&& final(self).pos() == span.end
                },
                Step::Fail(unmatched) => {
                    &&& item matches Some(Err(error))
                    &&& error@ == unmatched
                    &&& final(self).pos() == unmatched.column
                },
            },
    {
        proof {
            use_type_invariant(&*self);
            self.expr@.lemma_scan(self.end as int);
        }
        let expr = self.expr;
        let len = expr.content.len();
        let start = expr.run_end(true, self.end);
        if start == len {
            *self = Iter { start, end: start, expr };
            return None;
        }
        let c = expr.content[start];
        let found: Result<(usize, Kind), Quote> = if c == '|' {
            Ok((start + 1, Kind::Pipe))
        } else if c == '-' {
            Ok((expr.run_end(false, start), Kind::Opt))
        } else if c == '"' {
            let close = expr.find('"', start + 1);
            if close < len {
                Ok((close + 1, Kind::DoubleQuoteString))
            } else {
                Err(Quote::Double)
            }
        } else if c == '\'' {
            let close = expr.find('\'', start + 1);
            if close < len {
                Ok((close + 1, Kind::SingleQuoteString))
            } else {
                Err(Quote::Single)
            }
        } else {
            Ok((expr.run_end(false, start), Kind::Cmd))
        };
        match found {
            Ok((end, kind)) => {
                let token = expr.cut(start, end, kind);
                *self = Iter { start: end, end, expr };
                Some(Ok(token))
            },
            Err(quote) => {
                *self = Iter { start, end: start, expr };
                Some(Err(UnmatchedQuote { quote, column: start }))
            },
        }
    }
}

} // verus!
