#![allow(dead_code, unused_imports)]

use std::rc::Rc;

use paddle::eval::display::Piece;
use paddle::eval::env::{BuiltinError, Env};
use paddle::eval::error::{Error, EvalError};
use paddle::eval::eval::eval;
use paddle::eval::lower::lower;
use paddle::eval::value::{Form, Value};
use paddle::lexer::lex;
use paddle::parser::parse_expr;

fn eval_str(s: &str) -> Value {
    let mut env = Env::new();
    let tokens = lex(s);
    let (expr, _) = parse_expr(&tokens).unwrap();
    let expr = lower(&expr);
    eval(expr, Env::root(), &mut env).unwrap()
}

fn eval_str_env(exprs: &[&str]) -> Value {
    let mut env = Env::new();
    let mut last = None;
    for expr in exprs {
        let tokens = lex(expr);
        let (e, _) = parse_expr(&tokens).unwrap();
        let e = lower(&e);
        let val = eval(e, Env::root(), &mut env);
        last = Some(val);
    }
    last.unwrap().unwrap()
}

fn num(n: f64) -> Value {
    Value::Num(n.to_bits())
}

fn sym(s: &str) -> Value {
    Value::Symbol(s.into())
}

fn cons(head: Value, tail: Value) -> Value {
    Value::Cons(Rc::new((head, tail)))
}

fn eval_err(s: &str) -> Error {
    let mut env = Env::new();
    let tokens = lex(s);
    let (expr, _) = parse_expr(&tokens).unwrap();
    let expr = lower(&expr);
    eval(expr, Env::root(), &mut env).unwrap_err()
}

fn eval_env_err(exprs: &[&str]) -> Error {
    let mut env = Env::new();
    for s in exprs {
        let tokens = lex(s);
        let (e, _) = parse_expr(&tokens).unwrap();
        let e = lower(&e);
        if let Err(err) = eval(e, Env::root(), &mut env) {
            return err;
        }
    }
    panic!("expected an error but all expressions succeeded");
}

/// The printed form of a value, numbers written as Rust writes an `f64`.
fn display(v: &Value) -> String {
    let mut out = String::new();
    for p in v.display_pieces() {
        match p {
            Piece::Text(t) => out.push_str(&t),
            Piece::Num(b) => out.push_str(&f64::from_bits(b).to_string()),
        }
    }
    out
}

#[test]
fn eq_numbers_equal() {
    assert_eq!(eval_str("(= 1 1)"), Value::Bool(true));
}

#[test]
fn eq_numbers_unequal() {
    assert_eq!(eval_str("(= 1 2)"), Value::Bool(false));
}

#[test]
fn eq_strings_equal() {
    assert_eq!(eval_str(r#"(= "hi" "hi")"#), Value::Bool(true));
}

#[test]
fn eq_strings_unequal() {
    assert_eq!(eval_str(r#"(= "hi" "bye")"#), Value::Bool(false));
}

#[test]
fn eq_symbols_equal() {
    assert_eq!(eval_str("(= 'foo 'foo)"), Value::Bool(true));
}

#[test]
fn eq_symbols_unequal() {
    assert_eq!(eval_str("(= 'foo 'bar)"), Value::Bool(false));
}

#[test]
fn eq_symbol_and_string_same_content() {
    assert_eq!(eval_str(r#"(= 'foo "foo")"#), Value::Bool(true));
}

#[test]
fn eq_string_and_symbol_same_content() {
    assert_eq!(eval_str(r#"(= "foo" 'foo)"#), Value::Bool(true));
}

#[test]
fn eq_symbol_and_string_different_content() {
    assert_eq!(eval_str(r#"(= 'foo "bar")"#), Value::Bool(false));
}

#[test]
fn eq_nil_nil() {
    assert_eq!(eval_str("(= nil nil)"), Value::Bool(true));
}

#[test]
fn eq_nil_empty_list() {
    // '() and nil are the same value
    assert_eq!(eval_str("(= nil '())"), Value::Bool(true));
}

#[test]
fn eq_nil_number() {
    assert_eq!(eval_str("(= nil 1)"), Value::Bool(false));
}

#[test]
fn eq_number_nil() {
    assert_eq!(eval_str("(= 1 nil)"), Value::Bool(false));
}

#[test]
fn eq_nil_false() {
    assert_eq!(eval_str("(= nil #f)"), Value::Bool(false));
}

#[test]
fn eq_chars_equal() {
    assert_eq!(eval_str("(= (char 65) (char 65))"), Value::Bool(true));
}

#[test]
fn eq_chars_unequal() {
    assert_eq!(eval_str("(= (char 65) (char 66))"), Value::Bool(false));
}

#[test]
fn eq_char_and_string_same_content() {
    assert_eq!(eval_str(r#"(= (char 65) "A")"#), Value::Bool(true));
}

#[test]
fn eq_string_and_char_same_content() {
    assert_eq!(eval_str(r#"(= "A" (char 65))"#), Value::Bool(true));
}

#[test]
fn eq_char_and_symbol_same_content() {
    assert_eq!(eval_str("(= (char 65) 'A)"), Value::Bool(true));
}

#[test]
fn eq_symbol_and_char_same_content() {
    assert_eq!(eval_str("(= 'A (char 65))"), Value::Bool(true));
}

#[test]
fn eq_char_and_multi_char_string() {
    assert_eq!(eval_str(r#"(= (char 65) "AB")"#), Value::Bool(false));
}

#[test]
fn eq_char_and_number() {
    assert_eq!(eval_str("(= (char 65) 65)"), Value::Bool(false));
}
