use vega::expr::Expr;
use vega::lexer::{Lexer, Token};
use vega::parser::Parser;

fn id(s: &str) -> Token {
    Token::Identifier(s.to_string())
}

fn num(s: &str) -> Token {
    Token::Number(s.to_string())
}

fn text(s: &str) -> Token {
    Token::String(s.to_string())
}

fn sym(s: &str) -> Expr {
    Expr::Symbol(s.to_string())
}

fn parse(source: &str) -> Vec<Expr> {
    Parser::parse(&Lexer::tokenize(source))
}

#[test]
fn brackets_are_their_own_tokens() {
    assert_eq!(
        Lexer::tokenize("(var a [5])"),
        vec![
            Token::LeftParen,
            id("var"),
            id("a"),
            Token::LeftBracket,
            num("5"),
            Token::RightBracket,
            Token::RightParen
        ]
    );
}

#[test]
fn space_and_line_feed_separate() {
    assert_eq!(Lexer::tokenize("a  b\nc"), vec![id("a"), id("b"), id("c")]);
    assert_eq!(Lexer::tokenize("a\tb"), vec![id("a\tb")]);
    assert_eq!(Lexer::tokenize(""), vec![]);
    assert_eq!(Lexer::tokenize(" \n "), vec![]);
}

#[test]
fn end_of_input_flushes_the_pending_word() {
    assert_eq!(Lexer::tokenize("abc"), vec![id("abc")]);
    assert_eq!(Lexer::tokenize("(print 12"), vec![Token::LeftParen, id("print"), num("12")]);
}

#[test]
fn digits_and_dots_make_a_number() {
    assert_eq!(Lexer::tokenize("3.14 5 .5 1.2.3 ."), vec![
        num("3.14"),
        num("5"),
        num(".5"),
        num("1.2.3"),
        num(".")
    ]);
    assert_eq!(Lexer::tokenize("-5 1e3 x1 :test"), vec![id("-5"), id("1e3"), id("x1"), id(":test")]);
}

#[test]
fn string_literal_has_no_escapes() {
    assert_eq!(Lexer::tokenize("\"hi there\""), vec![text("hi there")]);
    assert_eq!(Lexer::tokenize("\"a\\nb (c) [d]\""), vec![text("a\\nb (c) [d]")]);
    assert_eq!(Lexer::tokenize("\"\""), vec![text("")]);
    assert_eq!(Lexer::tokenize("(print \"x\")"), vec![
        Token::LeftParen,
        id("print"),
        text("x"),
        Token::RightParen
    ]);
}

#[test]
fn string_that_is_not_closed_ends_with_the_input() {
    assert_eq!(Lexer::tokenize("\"open"), vec![text("open")]);
}

#[test]
fn quote_inside_a_word_leaves_the_word_open() {
    assert_eq!(Lexer::tokenize("ab\"cd\"ef "), vec![text("cd"), id("abef")]);
}

#[test]
fn forest_keeps_sibling_order() {
    assert_eq!(parse("a \"b\" 3"), vec![
        sym("a"),
        Expr::String("b".to_string()),
        Expr::Number("3".to_string())
    ]);
}

#[test]
fn nesting_by_brackets() {
    assert_eq!(parse("(a (b c) [1 (d)])"), vec![Expr::List(vec![
        sym("a"),
        Expr::List(vec![sym("b"), sym("c")]),
        Expr::Array(vec![Expr::Number("1".to_string()), Expr::List(vec![sym("d")])]),
    ])]);
    assert_eq!(parse("() []"), vec![Expr::List(vec![]), Expr::Array(vec![])]);
}

#[test]
fn unmatched_closer_ends_the_nesting_silently() {
    assert_eq!(parse("a ) b"), vec![sym("a")]);
    assert_eq!(parse("(a ] b"), vec![Expr::List(vec![sym("a")]), sym("b")]);
    assert_eq!(parse("[a ) b"), vec![Expr::Array(vec![sym("a")]), sym("b")]);
    assert_eq!(parse("(a (b"), vec![Expr::List(vec![sym("a"), Expr::List(vec![sym("b")])])]);
}

#[test]
fn numeral_and_quoted_string_are_single_atoms() {
    assert_eq!(parse("12.5"), vec![Expr::Number("12.5".to_string())]);
    assert_eq!(parse("\"a b\""), vec![Expr::String("a b".to_string())]);
}

#[test]
fn numerals_that_the_float_reader_takes() {
    assert!("5.".parse::<f32>().is_ok());
    assert!(".5".parse::<f32>().is_ok());
    assert!(".".parse::<f32>().is_err());
    assert!("1.2.3".parse::<f32>().is_err());
}

#[test]
fn numerals_without_a_digit_or_with_two_dots_are_malformed() {
    assert_eq!(Lexer::malformed(&Lexer::tokenize("(+ 1 2.5) \"1.2.3\" x")), None);
    assert_eq!(Lexer::malformed(&Lexer::tokenize("5. .5 0")), None);
    assert_eq!(Lexer::malformed(&Lexer::tokenize("1 1.2.3 . 4")), Some("1.2.3".to_string()));
    assert_eq!(Lexer::malformed(&Lexer::tokenize("(a . b)")), Some(".".to_string()));
    assert_eq!(Lexer::malformed(&Lexer::tokenize("..")), Some("..".to_string()));
}
