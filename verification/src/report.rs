//! The words in which an unmatched quote is reported.

use vstd::prelude::*;
use crate::token::{Quote, UnmatchedQuote, Unmatched};

verus! {

/// The digit that stands for `d`, where `d` is less than ten.
pub open spec fn digit(d: int) -> char {
    ('0' as int + d) as char
}

/// The decimal numeral of `n`: most significant digit first, no leading zero
/// but for zero itself.
pub open spec fn decimal(n: int) -> Seq<char>
    decreases n,
{
    if n < 10 {
        seq![digit(n)]
    } else {
        decimal(n / 10).push(digit(n % 10))
    }
}

impl Quote {
    /// How the quote is called in a report.
    pub open spec fn name(self) -> Seq<char> {
        match self {
            Quote::Single => "Single"@,
            Quote::Double => "Double"@,
        }
    }
}

impl Unmatched {
    /// The report: the name of the quote, then where it stands.
    pub open spec fn message(self) -> Seq<char> {
        self.quote.name() + " quote at column "@ + decimal(self.column) + " unmatched"@
    }
}

/// Appends the decimal numeral of `n` to `out`.
pub fn push_decimal(out: &mut String, n: usize)
    ensures
        final(out)@ == old(out)@ + decimal(n as int),
    decreases n,
{
    if n >= 10 {
        push_decimal(out, n / 10);
    }
    let d: u8 = (n % 10) as u8;
    out.push(('0' as u8 + d) as char);
}

impl UnmatchedQuote {
    /// The report of this error, such as `Double quote at column 0 unmatched`.
    pub fn message(&self) -> (text: String)
        ensures
            text@ == self@.message(),
    {
        let mut text = String::new();
        match self.quote {
            Quote::Single => text.append("Single"),
            Quote::Double => text.append("Double"),
        }
        text.append(" quote at column ");
        push_decimal(&mut text, self.column);
        text.append(" unmatched");
        text
    }
}

} // verus!
