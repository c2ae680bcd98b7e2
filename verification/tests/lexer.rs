use format_shell_cmd::text::{classify, collect};
use format_shell_cmd::{Expr, Kind, Quote, Token, UnmatchedQuote};

fn token(text: &str, kind: Kind) -> Token {
    Token::new(text.to_string(), kind)
}

fn tokenize(line: &str) -> Result<Vec<Token>, UnmatchedQuote> {
    Expr::new(line).tokens()
}

fn unmatched(quote: Quote, column: usize) -> UnmatchedQuote {
    UnmatchedQuote { quote, column }
}

#[test]
fn token_new_keeps_text_and_kind() {
    let t = Token::new("-v".to_string(), Kind::Opt);
    assert_eq!(t.text, "-v");
    assert_eq!(t.kind, Kind::Opt);
}

#[test]
fn empty_line_has_no_tokens() {
    assert_eq!(tokenize(""), Ok(vec![]));
}

#[test]
fn one_space_has_no_tokens() {
    assert_eq!(tokenize(" "), Ok(vec![]));
}

#[test]
fn white_space_of_every_sort_has_no_tokens() {
    assert_eq!(tokenize("  \t \u{a0}\u{2003}\u{3000}\r\n"), Ok(vec![]));
}

#[test]
fn single_pipe() {
    assert_eq!(tokenize("|"), Ok(vec![token("|", Kind::Pipe)]));
}

#[test]
fn pipe_between_spaces() {
    assert_eq!(tokenize(" | "), Ok(vec![token("|", Kind::Pipe)]));
}

#[test]
fn pipe_then_lone_dash() {
    assert_eq!(
        tokenize(" | -"),
        Ok(vec![token("|", Kind::Pipe), token("-", Kind::Opt)])
    );
}

#[test]
fn pipe_then_option() {
    assert_eq!(
        tokenize(" | -bob"),
        Ok(vec![token("|", Kind::Pipe), token("-bob", Kind::Opt)])
    );
}

#[test]
fn pipe_option_and_double_quoted_string() {
    assert_eq!(
        tokenize(" | -bob \"dillon\""),
        Ok(vec![
            token("|", Kind::Pipe),
            token("-bob", Kind::Opt),
            token("\"dillon\"", Kind::DoubleQuoteString),
        ])
    );
}

#[test]
fn openssl_pipeline() {
    assert_eq!(
        tokenize("echo | openssl s_client -connect www.example.com:443"),
        Ok(vec![
            token("echo", Kind::Cmd),
            token("|", Kind::Pipe),
            token("openssl", Kind::Cmd),
            token("s_client", Kind::Cmd),
            token("-connect", Kind::Opt),
            token("www.example.com:443", Kind::Cmd),
        ])
    );
}

#[test]
fn unterminated_double_quote_reports_column_zero() {
    assert_eq!(tokenize("\"bob"), Err(unmatched(Quote::Double, 0)));
}

#[test]
fn lone_double_quote_is_unmatched() {
    assert_eq!(tokenize("\""), Err(unmatched(Quote::Double, 0)));
}

#[test]
fn lone_single_quote_is_unmatched() {
    assert_eq!(tokenize("'"), Err(unmatched(Quote::Single, 0)));
}

#[test]
fn unterminated_single_quote_reports_its_column() {
    assert_eq!(tokenize("  'bob"), Err(unmatched(Quote::Single, 2)));
}

#[test]
fn unmatched_quote_after_other_tokens_reports_its_column() {
    assert_eq!(tokenize("echo \"hi there"), Err(unmatched(Quote::Double, 5)));
}

#[test]
fn column_counts_characters_not_bytes() {
    assert_eq!(tokenize("\u{e9}\u{e9} \"x"), Err(unmatched(Quote::Double, 3)));
}

#[test]
fn a_quote_of_the_other_sort_does_not_close() {
    assert_eq!(tokenize("\"bob'"), Err(unmatched(Quote::Double, 0)));
    assert_eq!(tokenize("'bob\""), Err(unmatched(Quote::Single, 0)));
}

#[test]
fn space_inside_double_quotes_is_kept() {
    assert_eq!(
        tokenize("\" \""),
        Ok(vec![token("\" \"", Kind::DoubleQuoteString)])
    );
}

#[test]
fn space_inside_single_quotes_is_kept() {
    assert_eq!(
        tokenize("'a  b'"),
        Ok(vec![token("'a  b'", Kind::SingleQuoteString)])
    );
}

#[test]
fn empty_quoted_strings() {
    assert_eq!(
        tokenize("\"\" ''"),
        Ok(vec![
            token("\"\"", Kind::DoubleQuoteString),
            token("''", Kind::SingleQuoteString),
        ])
    );
}

#[test]
fn echo_awk_pipeline() {
    assert_eq!(
        tokenize("echo \"hi there\" | awk \"{print $1}\""),
        Ok(vec![
            token("echo", Kind::Cmd),
            token("\"hi there\"", Kind::DoubleQuoteString),
            token("|", Kind::Pipe),
            token("awk", Kind::Cmd),
            token("\"{print $1}\"", Kind::DoubleQuoteString),
        ])
    );
}

#[test]
fn no_escape_inside_quotes() {
    assert_eq!(
        tokenize("\"a\\\"b"),
        Ok(vec![
            token("\"a\\\"", Kind::DoubleQuoteString),
            token("b", Kind::Cmd),
        ])
    );
}

#[test]
fn a_quoted_string_ends_at_its_closing_quote() {
    assert_eq!(
        tokenize("\"a\"b|c"),
        Ok(vec![
            token("\"a\"", Kind::DoubleQuoteString),
            token("b|c", Kind::Cmd),
        ])
    );
}

#[test]
fn a_pipe_is_one_character() {
    assert_eq!(
        tokenize("||a"),
        Ok(vec![
            token("|", Kind::Pipe),
            token("|", Kind::Pipe),
            token("a", Kind::Cmd),
        ])
    );
}

#[test]
fn a_word_runs_to_the_next_white_space() {
    assert_eq!(
        tokenize("a|b a\"b c'd a-b"),
        Ok(vec![
            token("a|b", Kind::Cmd),
            token("a\"b", Kind::Cmd),
            token("c'd", Kind::Cmd),
            token("a-b", Kind::Cmd),
        ])
    );
}

#[test]
fn whatever_starts_with_a_dash_is_an_option() {
    assert_eq!(
        tokenize("-42 -- -a|b -\"x y\""),
        Ok(vec![
            token("-42", Kind::Opt),
            token("--", Kind::Opt),
            token("-a|b", Kind::Opt),
            token("-\"x", Kind::Opt),
            token("y\"", Kind::Cmd),
        ])
    );
}

#[test]
fn tabs_and_wide_spaces_separate_tokens() {
    assert_eq!(
        tokenize("a\tb\u{a0}c\u{3000}d"),
        Ok(vec![
            token("a", Kind::Cmd),
            token("b", Kind::Cmd),
            token("c", Kind::Cmd),
            token("d", Kind::Cmd),
        ])
    );
}

#[test]
fn text_outside_ascii_is_kept_as_it_stands() {
    assert_eq!(
        tokenize("gr\u{fc}\u{df}e '\u{4e16}\u{754c}'"),
        Ok(vec![
            token("gr\u{fc}\u{df}e", Kind::Cmd),
            token("'\u{4e16}\u{754c}'", Kind::SingleQuoteString),
        ])
    );
}

#[test]
fn next_walks_the_line_once() {
    let expr = Expr::new("ls -l | wc");
    let mut it = expr.iter();
    assert_eq!(it.next(), Some(Ok(token("ls", Kind::Cmd))));
    assert_eq!(it.next(), Some(Ok(token("-l", Kind::Opt))));
    assert_eq!(it.next(), Some(Ok(token("|", Kind::Pipe))));
    assert_eq!(it.next(), Some(Ok(token("wc", Kind::Cmd))));
    assert_eq!(it.next(), None);
    assert_eq!(it.next(), None);
}

#[test]
fn next_yields_the_tokens_before_an_unmatched_quote() {
    let expr = Expr::new("ls 'x");
    let mut it = expr.iter();
    assert_eq!(it.next(), Some(Ok(token("ls", Kind::Cmd))));
    assert_eq!(it.next(), Some(Err(unmatched(Quote::Single, 3))));
}

#[test]
fn next_keeps_reporting_an_unmatched_quote() {
    let expr = Expr::new(" \"x y");
    let mut it = expr.iter();
    assert_eq!(it.next(), Some(Err(unmatched(Quote::Double, 1))));
    assert_eq!(it.next(), Some(Err(unmatched(Quote::Double, 1))));
}

#[test]
fn two_cursors_over_one_line_do_not_disturb_each_other() {
    let expr = Expr::new("a b");
    let mut first = expr.iter();
    let mut second = expr.iter();
    assert_eq!(first.next(), Some(Ok(token("a", Kind::Cmd))));
    assert_eq!(second.next(), Some(Ok(token("a", Kind::Cmd))));
    assert_eq!(first.next(), Some(Ok(token("b", Kind::Cmd))));
    assert_eq!(second.next(), Some(Ok(token("b", Kind::Cmd))));
}

#[test]
fn with_blanks_takes_the_separators_from_the_caller() {
    let content: Vec<char> = "a,b c".chars().collect();
    let blank = vec![false, true, false, false, false];
    let expr = Expr::with_blanks(content, blank).unwrap();
    assert_eq!(
        expr.tokens(),
        Ok(vec![token("a", Kind::Cmd), token("b c", Kind::Cmd)])
    );
}

#[test]
fn with_blanks_passes_over_a_blank_pipe() {
    let content: Vec<char> = "a|-b".chars().collect();
    let blank = vec![false, true, false, false];
    let expr = Expr::with_blanks(content, blank).unwrap();
    assert_eq!(
        expr.tokens(),
        Ok(vec![token("a", Kind::Cmd), token("-b", Kind::Opt)])
    );
}

#[test]
fn with_blanks_wants_one_flag_for_each_character() {
    assert!(Expr::with_blanks(vec!['a', 'b'], vec![false]).is_none());
    assert!(Expr::with_blanks(vec![], vec![true]).is_none());
    assert!(Expr::with_blanks(vec![], vec![]).is_some());
}

#[test]
fn classify_flags_white_space() {
    let (chars, blank) = classify("a \u{e9}\t|");
    assert_eq!(chars, vec!['a', ' ', '\u{e9}', '\t', '|']);
    assert_eq!(blank, vec![false, true, false, true, false]);
}

#[test]
fn collect_takes_the_characters_of_a_range() {
    let chars: Vec<char> = "h\u{e9}llo".chars().collect();
    assert_eq!(collect(&chars, 1, 4), "\u{e9}ll");
    assert_eq!(collect(&chars, 2, 2), "");
    assert_eq!(collect(&chars, 0, 5), "h\u{e9}llo");
}
