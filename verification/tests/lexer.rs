#![allow(dead_code, unused_imports)]

use paddle::lexer::{lex, Span, Token, TokenKind};

fn kinds(tokens: Vec<Token>) -> Vec<TokenKind> {
    tokens.into_iter().map(|t| t.kind).collect()
}

fn tok(kind: TokenKind, line: usize, column: usize) -> Token {
    Token {
        kind,
        span: Span { line, column },
    }
}

fn sym(s: &str) -> TokenKind<'_> {
    TokenKind::Symbol(s)
}

#[test]
fn lexer_empty_input() {
    assert_eq!(lex(""), vec![]);
}

#[test]
fn only_whitespace() {
    assert_eq!(lex("   \n  "), vec![]);
}

#[test]
fn single_number() {
    assert_eq!(kinds(lex("42")), vec![sym("42")]);
}

#[test]
fn single_symbol() {
    assert_eq!(kinds(lex("foo")), vec![sym("foo")]);
}

#[test]
fn empty_parens() {
    assert_eq!(
        kinds(lex("()")),
        vec![TokenKind::LeftParen, TokenKind::RightParen]
    );
}

#[test]
fn simple_addition() {
    assert_eq!(
        kinds(lex("(+ 1 2)")),
        vec![
            TokenKind::LeftParen,
            sym("+"),
            sym("1"),
            sym("2"),
            TokenKind::RightParen
        ]
    );
}

#[test]
fn define_expression() {
    assert_eq!(
        kinds(lex("(define x 10)")),
        vec![
            TokenKind::LeftParen,
            sym("define"),
            sym("x"),
            sym("10"),
            TokenKind::RightParen
        ]
    );
}

#[test]
fn extra_spaces_between_tokens() {
    assert_eq!(
        kinds(lex("(+   1   2)")),
        vec![
            TokenKind::LeftParen,
            sym("+"),
            sym("1"),
            sym("2"),
            TokenKind::RightParen
        ]
    );
}

#[test]
fn newlines_between_tokens() {
    assert_eq!(
        kinds(lex("(+\n1\n2)")),
        vec![
            TokenKind::LeftParen,
            sym("+"),
            sym("1"),
            sym("2"),
            TokenKind::RightParen
        ]
    );
}

#[test]
fn nested_expression() {
    assert_eq!(
        kinds(lex("(+ (- 3 1) 2)")),
        vec![
            TokenKind::LeftParen,
            sym("+"),
            TokenKind::LeftParen,
            sym("-"),
            sym("3"),
            sym("1"),
            TokenKind::RightParen,
            sym("2"),
            TokenKind::RightParen,
        ]
    );
}

#[test]
fn lexer_deeply_nested() {
    assert_eq!(
        kinds(lex("(a (b (c)))")),
        vec![
            TokenKind::LeftParen,
            sym("a"),
            TokenKind::LeftParen,
            sym("b"),
            TokenKind::LeftParen,
            sym("c"),
            TokenKind::RightParen,
            TokenKind::RightParen,
            TokenKind::RightParen,
        ]
    );
}

#[test]
fn float_number() {
    assert_eq!(kinds(lex("3.14")), vec![sym("3.14")]);
}

#[test]
fn negative_number() {
    assert_eq!(kinds(lex("-7")), vec![sym("-7")]);
}

#[test]
fn negative_float() {
    assert_eq!(kinds(lex("-0.5")), vec![sym("-0.5")]);
}

#[test]
fn operator_symbols() {
    for op in ["+", "-", "*", "/", "=", "<", ">", "<=", ">="] {
        assert_eq!(kinds(lex(op)), vec![sym(op)], "operator: {op}");
    }
}

#[test]
fn multi_char_symbol() {
    assert_eq!(kinds(lex("lambda")), vec![sym("lambda")]);
}

#[test]
fn symbol_with_hyphen() {
    assert_eq!(kinds(lex("my-var")), vec![sym("my-var")]);
}

#[test]
fn symbol_with_question_mark() {
    assert_eq!(kinds(lex("nil?")), vec![sym("nil?")]);
}

#[test]
fn tab_between_tokens() {
    assert_eq!(
        kinds(lex("(+\t1\t2)")),
        vec![
            TokenKind::LeftParen,
            sym("+"),
            sym("1"),
            sym("2"),
            TokenKind::RightParen
        ]
    );
}

#[test]
fn carriage_return_between_tokens() {
    assert_eq!(
        kinds(lex("(+\r\n1\r\n2)")),
        vec![
            TokenKind::LeftParen,
            sym("+"),
            sym("1"),
            sym("2"),
            TokenKind::RightParen
        ]
    );
}

#[test]
fn only_tabs_and_carriage_returns() {
    assert_eq!(lex("\t\t\r\n\t"), vec![]);
}

#[test]
fn mixed_whitespace_between_tokens() {
    assert_eq!(
        kinds(lex("(+  \t  1)")),
        vec![
            TokenKind::LeftParen,
            sym("+"),
            sym("1"),
            TokenKind::RightParen
        ]
    );
}

#[test]
fn string_literal_no_spaces() {
    assert_eq!(kinds(lex("\"hello\"")), vec![sym("\"hello\"")]);
}

#[test]
fn string_literal_with_spaces() {
    assert_eq!(
        kinds(lex("(print \"hello world\")")),
        vec![
            TokenKind::LeftParen,
            sym("print"),
            sym("\"hello world\""),
            TokenKind::RightParen
        ]
    );
}

#[test]
fn two_string_literals_with_spaces() {
    assert_eq!(
        kinds(lex("(print \"hello world\" \"hello world\")")),
        vec![
            TokenKind::LeftParen,
            sym("print"),
            sym("\"hello world\""),
            sym("\"hello world\""),
            TokenKind::RightParen,
        ]
    );
}

#[test]
fn empty_string_literal() {
    assert_eq!(kinds(lex("\"\"")), vec![sym("\"\"")]);
}

#[test]
fn string_containing_parens() {
    assert_eq!(
        kinds(lex("\"(not a paren)\"")),
        vec![sym("\"(not a paren)\"")]
    );
}

#[test]
fn lexer_quote_atom() {
    assert_eq!(kinds(lex("'x")), vec![TokenKind::Quote, sym("x")]);
}

#[test]
fn lexer_quote_number() {
    assert_eq!(kinds(lex("'42")), vec![TokenKind::Quote, sym("42")]);
}

#[test]
fn lexer_quote_list() {
    assert_eq!(
        kinds(lex("'(+ 1 2)")),
        vec![
            TokenKind::Quote,
            TokenKind::LeftParen,
            sym("+"),
            sym("1"),
            sym("2"),
            TokenKind::RightParen
        ]
    );
}

#[test]
fn quote_inside_expression() {
    assert_eq!(
        kinds(lex("(eq 'a 'b)")),
        vec![
            TokenKind::LeftParen,
            sym("eq"),
            TokenKind::Quote,
            sym("a"),
            TokenKind::Quote,
            sym("b"),
            TokenKind::RightParen,
        ]
    );
}

#[test]
fn double_quote_shorthand() {
    assert_eq!(
        kinds(lex("''x")),
        vec![TokenKind::Quote, TokenKind::Quote, sym("x")]
    );
}

#[test]
fn quote_string() {
    assert_eq!(
        kinds(lex("'\"hello\"")),
        vec![TokenKind::Quote, sym("\"hello\"")]
    );
}

#[test]
fn escaped_quote_in_string() {
    assert_eq!(kinds(lex(r#""say \"hi\"""#)), vec![sym(r#""say \"hi\"""#)]);
}

#[test]
fn escaped_backslash_in_string() {
    assert_eq!(kinds(lex(r#""foo\\bar""#)), vec![sym(r#""foo\\bar""#)]);
}

#[test]
fn escaped_quote_at_end_of_string() {
    assert_eq!(kinds(lex(r#""hello\\""#)), vec![sym(r#""hello\\""#)]);
}

#[test]
fn string_with_only_escaped_quote() {
    assert_eq!(kinds(lex(r#""\"""#)), vec![sym(r#""\"""#)]);
}

#[test]
fn escaped_quote_does_not_break_surrounding_tokens() {
    assert_eq!(
        kinds(lex(r#"(print "say \"hi\"")"#)),
        vec![
            TokenKind::LeftParen,
            sym("print"),
            sym(r#""say \"hi\"""#),
            TokenKind::RightParen
        ]
    );
}

#[test]
fn backslash_before_quote_shorthand() {
    assert_eq!(
        kinds(lex(r"\'x")),
        vec![sym(r"\"), TokenKind::Quote, sym("x")]
    );
}

#[test]
fn backslash_before_left_paren() {
    assert_eq!(
        kinds(lex(r"\(foo)")),
        vec![
            sym(r"\"),
            TokenKind::LeftParen,
            sym("foo"),
            TokenKind::RightParen
        ]
    );
}

#[test]
fn backslash_as_symbol_character() {
    assert_eq!(
        kinds(lex(r"(foo \ bar)")),
        vec![
            TokenKind::LeftParen,
            sym("foo"),
            sym(r"\"),
            sym("bar"),
            TokenKind::RightParen
        ]
    );
}

#[test]
fn two_top_level_expressions() {
    assert_eq!(
        kinds(lex("(+ 1 2) (- 3 4)")),
        vec![
            TokenKind::LeftParen,
            sym("+"),
            sym("1"),
            sym("2"),
            TokenKind::RightParen,
            TokenKind::LeftParen,
            sym("-"),
            sym("3"),
            sym("4"),
            TokenKind::RightParen,
        ]
    );
}

#[test]
fn symbol_span() {
    assert_eq!(lex("foo")[0], tok(sym("foo"), 0, 1));
}

#[test]
fn symbol_span_after_whitespace() {
    // "   foo" — column increments per char, foo starts after 3 spaces
    assert_eq!(lex("   foo")[0], tok(sym("foo"), 0, 4));
}

#[test]
fn paren_span() {
    assert_eq!(lex("(foo)")[0], tok(TokenKind::LeftParen, 0, 1));
}

#[test]
fn second_line_span() {
    let tokens = lex("foo\nbar");
    assert_eq!(tokens[1], tok(sym("bar"), 1, 1));
}

#[test]
fn column_resets_after_newline() {
    // "(+\n1)" — 1 is at line 1, column 1
    let tokens = lex("(+\n1)");
    assert_eq!(tokens[2], tok(sym("1"), 1, 1));
}
