//! What the library takes from `std` on trust, and the small conversions
//! between strings and vectors of characters that are proved from it.

use vstd::prelude::*;

verus! {

/// Whether `c` is white space to `char::is_whitespace`, that is, whether it
/// has the Unicode property `White_Space`.
pub uninterp spec fn white_space(c: char) -> bool;

/// `char::is_whitespace` depends on the character alone: its result is the
/// value that contracts call [`white_space`]. Nothing is claimed
/// about which characters those are.
pub assume_specification[ char::is_whitespace ](c: char) -> (b: bool)
    ensures
        b == white_space(c),
;

/// `String::push` appends the one character to the end of the string.
pub assume_specification[ String::push ](s: &mut String, ch: char)
    ensures
        final(s)@ == old(s)@.push(ch),
;

/// The flags of a line of text: for each character, whether it is white space.
pub open spec fn whitespace_flags(text: Seq<char>) -> Seq<bool> {
    Seq::new(text.len(), |i: int| white_space(text[i]))
}

/// The characters of `text[from..to]` as a string.
pub fn collect(text: &Vec<char>, from: usize, to: usize) -> (s: String)
    requires
        from <= to <= text.len(),
    ensures
        s@ == text@.subrange(from as int, to as int),
{
    let mut s = String::new();
    let mut i: usize = from;
    while i < to
        invariant
            from <= i <= to <= text.len(),
            s@ == text@.subrange(from as int, i as int),
        decreases to - i,
    {
        s.push(text[i]);
        i += 1;
    }
    s
}

/// The characters of `content`, each with its white-space flag.
pub fn classify(content: &str) -> (r: (Vec<char>, Vec<bool>))
    ensures
        r.0@ == content@,
        r.1@ == whitespace_flags(content@),
{
    let mut chars: Vec<char> = Vec::new();
    let mut blank: Vec<bool> = Vec::new();
    for c in it: content.chars()
        invariant
            it.seq() == content@,
            chars@ == content@.take(it.index()),
            blank@ == whitespace_flags(chars@),
    {
        chars.push(c);
        blank.push(c.is_whitespace());
    }
    (chars, blank)
}

} // verus!
