#![allow(dead_code, unused_imports)]

use paddle::eval::display::Piece;
use paddle::eval::env::{BuiltinError, Env};
use paddle::eval::error::{Error, EvalError};
use paddle::eval::eval::eval;
use paddle::eval::lower::lower;
use paddle::eval::value::{Form, Value};
use paddle::lexer::{lex, Span, Token, TokenKind};
use paddle::parser::{parse_expr, ParseError};

fn eval_in(env: &mut Env, s: &str) -> Result<Value, Error> {
    let tokens = lex(s);
    let (e, _) = parse_expr(&tokens).unwrap();
    eval(lower(&e), Env::root(), env)
}

fn run(s: &str) -> Result<Value, Error> {
    eval_in(&mut Env::new(), s)
}

fn num(n: f64) -> Value {
    Value::Num(n.to_bits())
}

fn text_of(pieces: Vec<Piece>) -> String {
    let mut out = String::new();
    for p in pieces {
        match p {
            Piece::Text(t) => out.push_str(&t),
            Piece::Num(b) => out.push_str(&f64::from_bits(b).to_string()),
        }
    }
    out
}

// --- positions of tokens ---

#[test]
fn newline_does_not_move_the_token_before_it() {
    assert_eq!(
        lex("foo\nbar"),
        vec![
            Token { kind: TokenKind::Symbol("foo"), span: Span { line: 0, column: 1 } },
            Token { kind: TokenKind::Symbol("bar"), span: Span { line: 1, column: 1 } },
        ]
    );
    assert_eq!(lex("foo\nbar")[0], lex("foo")[0]);
}

#[test]
fn string_token_starts_at_its_quote() {
    let tokens = lex(r#"(foo "bar")"#);
    assert_eq!(
        tokens[2],
        Token { kind: TokenKind::Symbol(r#""bar""#), span: Span { line: 0, column: 6 } }
    );
}

#[test]
fn lone_open_paren_is_an_unexpected_end() {
    let tokens = lex("(");
    assert_eq!(
        parse_expr(&tokens),
        Err(ParseError::UnexpectedEof { span: Span { line: 0, column: 1 } })
    );
}

#[test]
fn define_macro_names_the_macro_form() {
    assert_eq!(Form::try_parse("define-macro"), Some(Form::DefineMacro));
    assert_eq!(Form::try_parse("@"), None);
    assert_eq!(Form::try_parse("unquotesplicing"), Some(Form::UnQuoteSplicing));
}

#[test]
fn define_macro_defines_a_macro() {
    let mut env = Env::new();
    eval_in(&mut env, "(define-macro (twice x) (list 'progn x x))").unwrap();
    assert_eq!(eval_in(&mut env, "(twice (+ 1 2))").unwrap(), num(3.0));
}

// --- string built-ins ---

#[test]
fn string_length_counts_chars() {
    assert_eq!(run(r#"(string-length "hello")"#).unwrap(), num(5.0));
    assert_eq!(run(r#"(string-length "")"#).unwrap(), num(0.0));
}

#[test]
fn string_ref_gives_a_char() {
    assert_eq!(run(r#"(string-ref "abc" 1)"#).unwrap(), Value::Char(b'b'));
    assert_eq!(
        run(r#"(string-ref "abc" 3)"#).unwrap_err().as_builtin(),
        Some(&BuiltinError::BadStringArg)
    );
    assert_eq!(
        run(r#"(string-ref "abc" 1.5)"#).unwrap_err().as_builtin(),
        Some(&BuiltinError::BadStringArg)
    );
}

#[test]
fn substring_takes_a_range() {
    assert_eq!(run(r#"(substring "hello" 1 3)"#).unwrap(), Value::Str("el".into()));
    assert_eq!(
        run(r#"(substring "hello" 3 1)"#).unwrap_err().as_builtin(),
        Some(&BuiltinError::BadStringArg)
    );
}

#[test]
fn string_append_joins_strings() {
    assert_eq!(run(r#"(string-append "ab" "" "cd")"#).unwrap(), Value::Str("abcd".into()));
    assert_eq!(run("(string-append)").unwrap(), Value::Str("".into()));
    assert_eq!(
        run(r#"(string-append "a" 1)"#).unwrap_err().as_builtin(),
        Some(&BuiltinError::BadStringArg)
    );
}

#[test]
fn string_and_list_convert_both_ways() {
    assert_eq!(
        run(r#"(string->list "hi")"#).unwrap(),
        Value::to_cons_list(vec![Value::Char(b'h'), Value::Char(b'i')])
    );
    assert_eq!(run(r#"(list->string (string->list "hi"))"#).unwrap(), Value::Str("hi".into()));
    assert_eq!(
        run("(list->string '(1))").unwrap_err().as_builtin(),
        Some(&BuiltinError::BadStringArg)
    );
}

#[test]
fn string_to_num_reads_numbers() {
    assert_eq!(run(r#"(string->num "2.5")"#).unwrap(), num(2.5));
    assert_eq!(run(r#"(string->num "abc")"#).unwrap(), Value::Nil);
}

#[test]
fn string_built_in_arity() {
    assert_eq!(
        run("(string-length)").unwrap_err().as_builtin(),
        Some(&BuiltinError::WrongStringArgCount)
    );
    assert_eq!(
        run(r#"(substring "a" 0)"#).unwrap_err().as_builtin(),
        Some(&BuiltinError::WrongStringArgCount)
    );
}

// --- input and output ---

#[test]
fn print_writes_its_arguments() {
    let mut env = Env::new();
    assert_eq!(eval_in(&mut env, r#"(print "x =" 1.5 '(a b))"#).unwrap(), Value::Nil);
    assert_eq!(text_of(env.take_output()), "x = 1.5 '(:a :b)\n");
    assert!(env.take_output().is_empty());
}

#[test]
fn getchar_and_getline_read_the_input() {
    let mut env = Env::new();
    env.feed_input("ab\ncd\n");
    assert_eq!(eval_in(&mut env, "(getchar)").unwrap(), Value::Char(b'a'));
    assert_eq!(eval_in(&mut env, "(getline)").unwrap(), Value::Str("b".into()));
    assert_eq!(eval_in(&mut env, "(getline)").unwrap(), Value::Str("cd".into()));
}

#[test]
fn reading_past_the_input_asks_for_more() {
    let mut env = Env::new();
    assert_eq!(
        eval_in(&mut env, "(getline)").unwrap_err().as_eval(),
        Some(&EvalError::InputNeeded)
    );
    env.feed_input("last");
    assert_eq!(
        eval_in(&mut env, "(getline)").unwrap_err().as_eval(),
        Some(&EvalError::InputNeeded)
    );
    env.close_input();
    assert_eq!(eval_in(&mut env, "(getline)").unwrap(), Value::Str("last".into()));
    assert_eq!(eval_in(&mut env, "(getline)").unwrap(), Value::Nil);
    assert_eq!(eval_in(&mut env, "(getchar)").unwrap(), Value::Nil);
}

#[test]
fn input_built_ins_take_no_arguments() {
    assert_eq!(
        run("(getchar 1)").unwrap_err().as_builtin(),
        Some(&BuiltinError::NoArgsExpected)
    );
}
