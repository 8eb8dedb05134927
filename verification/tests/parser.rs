#![allow(dead_code, unused_imports)]

use paddle::lexer::{lex, Span};
use paddle::parser::{parse_expr, Expr, ParseError};

fn sp(line: usize, column: usize) -> Span {
    Span { line, column }
}

fn atom(s: &str, line: usize, column: usize) -> Expr<'_> {
    Expr::Atom(s, Span { line, column })
}

fn strip_spans(expr: Expr) -> Expr {
    match expr {
        Expr::Atom(text, _) => Expr::Atom(text, sp(0, 0)),
        Expr::List(items, _) => Expr::List(items.into_iter().map(strip_spans).collect(), sp(0, 0)),
    }
}

fn a(s: &str) -> Expr<'_> {
    Expr::Atom(s, sp(0, 0))
}

fn l(items: Vec<Expr>) -> Expr {
    Expr::List(items, sp(0, 0))
}

#[test]
fn single_atom() {
    let tokens = lex("foo");
    let (expr, rest) = parse_expr(&tokens).unwrap();
    assert_eq!(strip_spans(expr), a("foo"));
    assert!(rest.is_empty());
}

#[test]
fn double_atom() {
    let tokens = lex("foo bar");
    let (expr, rest) = parse_expr(&tokens).unwrap();
    assert_eq!(strip_spans(expr), a("foo"));
    assert!(!rest.is_empty());
}

#[test]
fn parser_empty_list() {
    let tokens = lex("()");
    let (expr, rest) = parse_expr(&tokens).unwrap();
    assert_eq!(strip_spans(expr), l(vec![]));
    assert!(rest.is_empty());
}

#[test]
fn simple_list() {
    let tokens = lex("(+ 1 2)");
    let (expr, rest) = parse_expr(&tokens).unwrap();
    assert_eq!(strip_spans(expr), l(vec![a("+"), a("1"), a("2")]));
    assert!(rest.is_empty());
}

#[test]
fn nested_list() {
    let tokens = lex("(+ (- 3 1) 2)");
    let (expr, rest) = parse_expr(&tokens).unwrap();
    assert_eq!(
        strip_spans(expr),
        l(vec![a("+"), l(vec![a("-"), a("3"), a("1")]), a("2")])
    );
    assert!(rest.is_empty());
}

#[test]
fn parser_deeply_nested() {
    let tokens = lex("(a (b (c)))");
    let (expr, rest) = parse_expr(&tokens).unwrap();
    assert_eq!(
        strip_spans(expr),
        l(vec![a("a"), l(vec![a("b"), l(vec![a("c")])])])
    );
    assert!(rest.is_empty());
}

#[test]
fn quote_inside_list() {
    let tokens = lex("(foo 'x)");
    let (expr, rest) = parse_expr(&tokens).unwrap();
    assert_eq!(
        strip_spans(expr),
        l(vec![a("foo"), l(vec![a("quote"), a("x")])])
    );
    assert!(rest.is_empty());
}

#[test]
fn parser_quote_atom() {
    let tokens = lex("'x");
    let (expr, rest) = parse_expr(&tokens).unwrap();
    assert_eq!(strip_spans(expr), l(vec![a("quote"), a("x")]));
    assert!(rest.is_empty());
}

#[test]
fn double_quote() {
    let tokens = lex("''x");
    let (expr, rest) = parse_expr(&tokens).unwrap();
    assert_eq!(
        strip_spans(expr),
        l(vec![a("quote"), l(vec![a("quote"), a("x")])])
    );
    assert!(rest.is_empty());
}

#[test]
fn parser_quote_list() {
    let tokens = lex("'(+ 1 2)");
    let (expr, rest) = parse_expr(&tokens).unwrap();
    assert_eq!(
        strip_spans(expr),
        l(vec![a("quote"), l(vec![a("+"), a("1"), a("2")])])
    );
    assert!(rest.is_empty());
}

#[test]
fn atom_span() {
    let tokens = lex("foo");
    let (expr, _) = parse_expr(&tokens).unwrap();
    assert_eq!(expr, atom("foo", 0, 1));
}

#[test]
fn atom_span_after_whitespace() {
    // "   foo" — foo starts at column 4
    let tokens = lex("   foo");
    let (expr, _) = parse_expr(&tokens).unwrap();
    assert_eq!(expr, atom("foo", 0, 4));
}

#[test]
fn atom_on_second_line() {
    let tokens = lex("foo\nbar");
    let (_, rest) = parse_expr(&tokens).unwrap();
    let (expr, _) = parse_expr(rest).unwrap();
    assert_eq!(expr, atom("bar", 1, 1));
}

#[test]
fn list_span_is_first_element() {
    // span of a list is the first token inside it (the opening paren is consumed)
    let tokens = lex("(+ 1 2)");
    let (expr, _) = parse_expr(&tokens).unwrap();
    if let Expr::List(_, span) = expr {
        assert_eq!(span, sp(0, 2)); // '+' is at column 2
    } else {
        assert_eq!(0, 1, "expected list");
    }
}

#[test]
fn parser_empty_input() {
    let tokens = lex("");
    assert_eq!(parse_expr(&tokens), Err(ParseError::EmptyInput));
}

#[test]
fn unclosed_paren() {
    let tokens = lex("(+ 1 2");
    assert!(matches!(
        parse_expr(&tokens),
        Err(ParseError::UnexpectedEof { .. })
    ));
}

#[test]
fn bare_quote_at_end() {
    let tokens = lex("'");
    assert!(matches!(
        parse_expr(&tokens),
        Err(ParseError::UnexpectedEof { .. })
    ));
}

#[test]
fn unexpected_close_paren() {
    let tokens = lex(")");
    assert!(matches!(
        parse_expr(&tokens),
        Err(ParseError::UnexpectedToken { .. })
    ));
}
