use format_shell_cmd::report::push_decimal;
use format_shell_cmd::{Expr, Quote, UnmatchedQuote};

#[test]
fn message_names_the_quote_and_the_column() {
    let double = UnmatchedQuote { quote: Quote::Double, column: 0 };
    assert_eq!(double.message(), "Double quote at column 0 unmatched");
    let single = UnmatchedQuote { quote: Quote::Single, column: 15 };
    assert_eq!(single.message(), "Single quote at column 15 unmatched");
}

#[test]
fn message_of_a_lexer_error() {
    let error = Expr::new("echo | grep 'x").fmt().unwrap_err();
    assert_eq!(error.message(), "Single quote at column 12 unmatched");
}

#[test]
fn push_decimal_writes_the_numeral() {
    let mut out = String::from("n=");
    push_decimal(&mut out, 0);
    assert_eq!(out, "n=0");
    push_decimal(&mut out, 9);
    assert_eq!(out, "n=09");
    push_decimal(&mut out, 10);
    assert_eq!(out, "n=0910");
    push_decimal(&mut out, 1234567890);
    assert_eq!(out, "n=09101234567890");
}

#[test]
fn push_decimal_writes_the_largest_column() {
    let mut out = String::new();
    push_decimal(&mut out, usize::MAX);
    assert_eq!(out, usize::MAX.to_string());
}
