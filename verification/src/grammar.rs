//! The grammar of a command line, stated over sequences.
//!
//! A [`Line`] is a sequence of characters, each with a flag that says whether
//! it is blank, that is, whether it separates tokens. Everything the lexer
//! does is defined here as a function of a line and a position, and the
//! executable lexer is proved to compute exactly that.

use vstd::prelude::*;
use crate::text::whitespace_flags;
use crate::token::{Kind, Quote, TokenView, Unmatched};

verus! {

/// A line of text with its blank flags.
pub struct Line {
    /// The characters, in order.
    pub chars: Seq<char>,
    /// For each character, whether it separates tokens.
    pub blank: Seq<bool>,
}

/// The place of a token in a line: the half-open range `[start, end)`.
pub struct Span {
    /// The position of the first character.
    pub start: int,
    /// The position after the last character.
    pub end: int,
    /// The kind of the token.
    pub kind: Kind,
}

/// What the lexer finds when it looks for the next token.
pub enum Step {
    /// Nothing but blanks is left.
    End,
    /// The next token.
    Emit(Span),
    /// The next token would be a quoted string, and its quote is never closed.
    Fail(Unmatched),
}

impl Span {
    /// Whether position `at` lies inside the span.
    pub open spec fn holds(self, at: int) -> bool {
        self.start <= at < self.end
    }
}

impl Line {
    /// The line that `text` makes when white space separates its tokens.
    pub open spec fn of(text: Seq<char>) -> Line {
        Line { chars: text, blank: whitespace_flags(text) }
    }

    /// There is one flag for each character.
    pub open spec fn wf(self) -> bool {
        self.blank.len() == self.chars.len()
    }

    /// The number of characters.
    pub open spec fn len(self) -> int {
        self.chars.len() as int
    }

    /// Where the run of positions ends that starts at `from` and whose blank
    /// flags all equal `flag`: the first position at or after `from` with
    /// another flag, or the end of the line.
    pub open spec fn run_end(self, flag: bool, from: int) -> int
        decreases self.blank.len() - from,
    {
        if 0 <= from < self.blank.len() && self.blank[from] == flag {
            self.run_end(flag, from + 1)
        } else {
            from
        }
    }

    /// The first position at or after `from` that holds `c`, or the end of
    /// the line where none does.
    pub open spec fn find(self, c: char, from: int) -> int
        decreases self.chars.len() - from,
    {
        if 0 <= from < self.chars.len() && self.chars[from] != c {
            self.find(c, from + 1)
        } else {
            from
        }
    }

    /// The quoted string whose opening quote stands at `start`: it runs
    /// through the next quote of the same sort, whatever stands in between.
    /// Where no such quote follows, the opening quote is unmatched.
    pub open spec fn quoted(self, quote: Quote, start: int) -> Step {
        let close = self.find(quote.mark(), start + 1);
        if close < self.len() {
            Step::Emit(Span { start, end: close + 1, kind: quote.kind() })
        } else {
            Step::Fail(Unmatched { quote, column: start })
        }
    }

    /// The next token at or after `pos`. Blanks are passed over; the first
    /// character that is not blank decides the kind of the token and how far
    /// it reaches.
    pub open spec fn scan(self, pos: int) -> Step {
        let start = self.run_end(true, pos);
        if start >= self.len() {
            Step::End
        } else if self.chars[start] == '|' {
            Step::Emit(Span { start, end: start + 1, kind: Kind::Pipe })
        } else if self.chars[start] == '-' {
            Step::Emit(Span { start, end: self.run_end(false, start), kind: Kind::Opt })
        } else if self.chars[start] == '"' {
            self.quoted(Quote::Double, start)
        } else if self.chars[start] == '\'' {
            self.quoted(Quote::Single, start)
        } else {
            Step::Emit(Span { start, end: self.run_end(false, start), kind: Kind::Cmd })
        }
    }

    /// The tokens at `spans`, and after them whatever `rest` holds.
    pub open spec fn after(spans: Seq<Span>, rest: Result<Seq<Span>, Unmatched>) -> Result<
        Seq<Span>,
        Unmatched,
    > {
        match rest {
            Ok(more) => Ok(spans + more),
            Err(unmatched) => Err(unmatched),
        }
    }

    /// All the tokens from `pos` on, in order, or the first unmatched quote.
    pub open spec fn lex(self, pos: int) -> Result<Seq<Span>, Unmatched>
        decreases self.len() - pos,
        when self.wf() && 0 <= pos
    {
        match self.scan(pos) {
            Step::End => Ok(Seq::empty()),
            Step::Fail(unmatched) => Err(unmatched),
            Step::Emit(span) => {
                proof {
                    self.lemma_scan(pos);
                }
                Self::after(seq![span], self.lex(span.end))
            },
        }
    }

    /// The characters that `span` covers.
    pub open spec fn text(self, span: Span) -> Seq<char> {
        self.chars.subrange(span.start, span.end)
    }

    /// The token that stands at `span`.
    pub open spec fn token(self, span: Span) -> TokenView {
        TokenView { text: self.text(span), kind: span.kind }
    }

    /// The tokens that stand at `spans`.
    pub open spec fn tokens(self, spans: Seq<Span>) -> Seq<TokenView> {
        spans.map_values(|span: Span| self.token(span))
    }

    /// The tokens of the whole line, or its first unmatched quote.
    pub open spec fn parse(self) -> Result<Seq<TokenView>, Unmatched> {
        match self.lex(0) {
            Ok(spans) => Ok(self.tokens(spans)),
            Err(unmatched) => Err(unmatched),
        }
    }

    /// `span` is a run of characters none of which is blank, and a blank or
    /// the end of the line follows it.
    pub open spec fn is_word(self, span: Span) -> bool {
        &&& forall|i: int| span.start <= i < span.end ==> !self.blank[i]
        &&& span.end < self.len() ==> self.blank[span.end]
    }

    /// `span` starts with the quote, ends with the next quote of the same
    /// sort, and holds no other.
    pub open spec fn is_quoted(self, quote: Quote, span: Span) -> bool {
        &&& span.start + 2 <= span.end
        &&& self.chars[span.start] == quote.mark()
        &&& self.chars[span.end - 1] == quote.mark()
        &&& forall|i: int| span.start < i < span.end - 1 ==> self.chars[i] != quote.mark()
    }

    /// One step of the lexer, said without recursion: whether `step` is what
    /// stands next at or after `pos`.
    ///
    /// Only blanks lie between `pos` and whatever the step finds. A token
    /// starts at a character that is not blank, is never empty and lies
    /// inside the line; its first character fixes its kind. A pipe is one
    /// character long. An option or a word holds no blank and ends where a
    /// blank or the end of the line follows. A quoted string ends with the
    /// first quote of its sort after the opening one. The step fails only at
    /// a quote after which no quote of its sort stands.
    pub open spec fn is_step(self, pos: int, step: Step) -> bool {
        match step {
            Step::End => forall|i: int| pos <= i < self.len() ==> self.blank[i],
            Step::Emit(span) => {
                &&& pos <= span.start < span.end <= self.len()
                &&& forall|i: int| pos <= i < span.start ==> self.blank[i]
                &&& !self.blank[span.start]
                &&& match span.kind {
                    Kind::Pipe => self.chars[span.start] == '|' && span.end == span.start + 1,
                    Kind::Opt => self.chars[span.start] == '-' && self.is_word(span),
                    Kind::DoubleQuoteString => self.is_quoted(Quote::Double, span),
                    Kind::SingleQuoteString => self.is_quoted(Quote::Single, span),
                    Kind::Cmd => {
                        &&& self.chars[span.start] != '|'
                        &&& self.chars[span.start] != '-'
                        &&& self.chars[span.start] != '"'
                        &&& self.chars[span.start] != '\''
                        &&& self.is_word(span)
                    },
                }
            },
            Step::Fail(unmatched) => {
                &&& pos <= unmatched.column < self.len()
                &&& forall|i: int| pos <= i < unmatched.column ==> self.blank[i]
                &&& !self.blank[unmatched.column]
                &&& self.chars[unmatched.column] == unmatched.quote.mark()
                &&& forall|i: int|
                    unmatched.column < i < self.len() ==> self.chars[i] != unmatched.quote.mark()
            },
        }
    }

    /// A run ends inside the line or at its end; every position of the run
    /// has the flag, and the position after it, if there is one, has not.
    pub proof fn lemma_run_end(self, flag: bool, from: int)
        requires
            0 <= from <= self.blank.len(),
        ensures
            from <= self.run_end(flag, from) <= self.blank.len(),
            forall|i: int| from <= i < self.run_end(flag, from) ==> self.blank[i] == flag,
            self.run_end(flag, from) < self.blank.len() ==> self.blank[self.run_end(flag, from)]
                != flag,
        decreases self.blank.len() - from,
    {
        if from < self.blank.len() && self.blank[from] == flag {
            self.lemma_run_end(flag, from + 1);
        }
    }

    /// `find` stops inside the line or at its end; no position that it
    /// passed holds the character, and the position where it stopped, if it
    /// is inside the line, does.
    pub proof fn lemma_find(self, c: char, from: int)
        requires
            0 <= from <= self.chars.len(),
        ensures
            from <= self.find(c, from) <= self.chars.len(),
            forall|i: int| from <= i < self.find(c, from) ==> self.chars[i] != c,
            self.find(c, from) < self.chars.len() ==> self.chars[self.find(c, from)] == c,
        decreases self.chars.len() - from,
    {
        if from < self.chars.len() && self.chars[from] != c {
            self.lemma_find(c, from + 1);
        }
    }

    /// What `scan` finds is the next step.
    pub proof fn lemma_scan(self, pos: int)
        requires
            self.wf(),
            0 <= pos <= self.len(),
        ensures
            self.is_step(pos, self.scan(pos)),
    {
        let start = self.run_end(true, pos);
        self.lemma_run_end(true, pos);
        if start < self.len() {
            self.lemma_run_end(false, start);
            self.lemma_find('"', start + 1);
            self.lemma_find('\'', start + 1);
        }
    }

    /// The next step is fixed by the line and the position: whatever is the
    /// next step is what `scan` finds.
    pub proof fn lemma_scan_unique(self, pos: int, step: Step)
        requires
            self.wf(),
            0 <= pos <= self.len(),
            self.is_step(pos, step),
        ensures
            step == self.scan(pos),
    {
        self.lemma_scan(pos);
    }

    /// Where a step found the end of the line or an unmatched quote, the
    /// lexer has come to rest: from the place where it then stands it finds
    /// the same again.
    pub proof fn lemma_scan_rests(self, pos: int)
        requires
            self.wf(),
            0 <= pos <= self.len(),
        ensures
            self.scan(pos) is End ==> self.scan(self.len()) is End,
            self.scan(pos) matches Step::Fail(unmatched) ==> self.scan(unmatched.column)
                == self.scan(pos),
    {
        self.lemma_scan(pos);
        if let Step::Fail(unmatched) = self.scan(pos) {
            self.lemma_scan_unique(unmatched.column, self.scan(pos));
        }
    }

    /// Lexing may be done in two parts: the tokens found so far, then the
    /// tokens from where the last of them ended.
    pub proof fn lemma_lex_step(self, spans: Seq<Span>, pos: int)
        requires
            self.wf(),
            0 <= pos <= self.len(),
        ensures
            Self::after(spans, self.lex(pos)) == match self.scan(pos) {
                Step::End => Ok(spans),
                Step::Emit(span) => Self::after(spans.push(span), self.lex(span.end)),
                Step::Fail(unmatched) => Err(unmatched),
            },
    {
        self.lemma_scan(pos);
        match self.scan(pos) {
            Step::Emit(span) => {
                if let Ok(rest) = self.lex(span.end) {
                    assert(spans + (seq![span] + rest) =~= spans.push(span) + rest);
                }
            },
            Step::End | Step::Fail(_) => {},
        }
    }

    /// The tokens of a line stand in order and apart, and nothing but blanks
    /// stands outside them: each lies inside the line at or after `pos` and
    /// is not empty, each starts where the one before it ended or later, and
    /// every character from `pos` on that is not blank belongs to one of them.
    pub proof fn lemma_lex_spans(self, pos: int)
        requires
            self.wf(),
            0 <= pos <= self.len(),
            self.lex(pos) is Ok,
        ensures
            ({
                let spans = self.lex(pos)->Ok_0;
                &&& forall|i: int|
                    0 <= i < spans.len() ==> pos <= (#[trigger] spans[i]).start < spans[i].end
                        <= self.len()
                &&& forall|i: int, j: int|
                    0 <= i < j < spans.len() ==> (#[trigger] spans[i]).end
                        <= (#[trigger] spans[j]).start
                &&& forall|at: int|
                    pos <= at < self.len() && !#[trigger] self.blank[at] ==> exists|i: int|
                        0 <= i < spans.len() && (#[trigger] spans[i]).holds(at)
            }),
        decreases self.len() - pos,
    {
        self.lemma_scan(pos);
        let spans = self.lex(pos)->Ok_0;
        if let Step::Emit(span) = self.scan(pos) {
            self.lemma_lex_spans(span.end);
            let rest = self.lex(span.end)->Ok_0;
            // The first token is `span`; the others are those of the rest of
            // the line, each one place further on.
            assert forall|i: int| 1 <= i < spans.len() implies #[trigger] spans[i] == rest[i
                - 1] by {}
            assert forall|at: int|
                pos <= at < self.len() && !#[trigger] self.blank[at] implies exists|i: int|
                0 <= i < spans.len() && (#[trigger] spans[i]).holds(at) by {
                if at < span.end {
                    assert(spans[0].holds(at));
                } else {
                    let i = choose|i: int| 0 <= i < rest.len() && (#[trigger] rest[i]).holds(at);
                    assert(spans[i + 1].holds(at));
                }
            }
        }
    }

    /// A line of nothing but blanks has no tokens.
    pub proof fn lemma_blank_line(self)
        requires
            self.wf(),
            forall|i: int| 0 <= i < self.len() ==> self.blank[i],
        ensures
            self.lex(0) == Ok::<Seq<Span>, Unmatched>(Seq::empty()),
            self.parse() == Ok::<Seq<TokenView>, Unmatched>(Seq::empty()),
    {
        self.lemma_scan_unique(0, Step::End);
        assert(self.tokens(Seq::empty()) =~= Seq::<TokenView>::empty());
    }
}

} // verus!
