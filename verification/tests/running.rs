#![allow(dead_code, unused_imports)]

use paddle::cursor::{count_paren, is_ready_to_process, process, Cursor};
use paddle::eval::env::{Env, ValueKind};
use paddle::eval::error::{Error, EvalError};
use paddle::eval::value::Value;
use paddle::lexer::lex;
use paddle::parser::ParseError;

fn num(n: f64) -> Value {
    Value::Num(n.to_bits())
}

#[test]
fn paren_count_of_balanced_text() {
    assert_eq!(count_paren("(+ 1 (* 2 3))"), 0);
}

#[test]
fn paren_count_of_open_and_closed_text() {
    assert_eq!(count_paren("((("), 3);
    assert_eq!(count_paren("())"), -1);
    assert_eq!(count_paren(""), 0);
}

#[test]
fn paren_counts_add_up() {
    assert_eq!(count_paren("(def (f x)") + count_paren(" x)"), count_paren("(def (f x) x)"));
}

#[test]
fn ready_when_parens_balance() {
    assert_eq!(is_ready_to_process("(+ 1 2)"), Ok(true));
    assert_eq!(is_ready_to_process("(+ 1"), Ok(false));
    assert_eq!(is_ready_to_process("(+ 1))"), Err(Error::UnbalancedParens));
}

#[test]
fn process_stops_at_the_first_error() {
    let mut env = Env::new();
    let r = process("(def a 1) (car 1) (def b 2)", Env::root(), &mut env);
    assert!(r.is_err());
    assert_eq!(process("a", Env::root(), &mut env).unwrap(), vec![num(1.0)]);
    assert!(process("b", Env::root(), &mut env).is_err());
}

#[test]
fn process_of_blank_text() {
    let mut env = Env::new();
    assert_eq!(process("  \n ; only a comment\n", Env::root(), &mut env).unwrap(), vec![]);
}

#[test]
fn process_reports_parse_errors() {
    let mut env = Env::new();
    let err = process("(+ 1", Env::root(), &mut env).unwrap_err();
    assert!(matches!(err, Error::Parse(ParseError::UnexpectedEof { .. })));
}

#[test]
fn lone_double_quote_is_refused() {
    let mut env = Env::new();
    let err = process("\"", Env::root(), &mut env).unwrap_err();
    assert_eq!(err.as_eval(), Some(&EvalError::LoneQuoteAtom));
}

#[test]
fn cursor_walks_expression_by_expression() {
    let mut env = Env::new();
    let tokens = lex("(def x 2) (* x 21) y");
    let mut cursor = Cursor::new(&tokens, Env::root());
    assert_eq!(cursor.next(&mut env), Some(Ok(Value::Nil)));
    assert_eq!(cursor.next(&mut env), Some(Ok(num(42.0))));
    let third = cursor.next(&mut env).unwrap().unwrap_err();
    assert_eq!(third.as_eval(), Some(&EvalError::SymbolUndefined("y".into())));
    assert_eq!(cursor.next(&mut env), None);
}

#[test]
fn cursor_stays_on_a_parse_error() {
    let mut env = Env::new();
    let tokens = lex(")");
    let mut cursor = Cursor::new(&tokens, Env::root());
    assert!(matches!(cursor.next(&mut env), Some(Err(Error::Parse(_)))));
    assert!(matches!(cursor.next(&mut env), Some(Err(Error::Parse(_)))));
}

#[test]
fn stdlib_sources_are_loaded_in_order() {
    let env = Env::with_stdlib("(def (inc x) (+ x 1)) (def one 1)", "(defm (m x) x)").unwrap();
    let funcs = env.entries_of_kind(Env::root(), ValueKind::Func);
    assert_eq!(funcs.len(), 1);
    assert_eq!(funcs[0].0, "inc");
    let macros = env.entries_of_kind(Env::root(), ValueKind::Macro);
    assert_eq!(macros.len(), 1);
    assert_eq!(macros[0].0, "m");
    let plain = env.entries_of_kind(Env::root(), ValueKind::Plain);
    assert_eq!(plain, vec![("one".to_string(), num(1.0))]);
}

#[test]
fn stdlib_error_is_reported() {
    let r = Env::with_stdlib("(def a 1)", "(car)");
    assert!(r.is_err());
}

#[test]
fn entries_of_a_frame_in_definition_order() {
    let mut env = Env::new();
    process("(def b 2) (def a 1) (def b 3)", Env::root(), &mut env).unwrap();
    assert_eq!(
        env.entries(Env::root()),
        vec![("b".to_string(), num(3.0)), ("a".to_string(), num(1.0))]
    );
}

#[test]
fn every_paren_counts_also_in_strings_and_comments() {
    assert_eq!(count_paren("(print \"(\") ; )("), 1);
}
