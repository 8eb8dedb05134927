#![allow(dead_code, unused_imports)]

use std::rc::Rc;

use paddle::eval::display::Piece;
use paddle::eval::env::{BuiltinError, Env};
use paddle::eval::error::{Error, EvalError};
use paddle::eval::eval::eval;
use paddle::eval::lower::lower;
use paddle::eval::value::{Form, Value};
use paddle::lexer::lex;
use paddle::parser::parse_expr;

fn eval_str(s: &str) -> Value {
    let mut env = Env::new();
    let tokens = lex(s);
    let (expr, _) = parse_expr(&tokens).unwrap();
    let expr = lower(&expr);
    eval(expr, Env::root(), &mut env).unwrap()
}

fn eval_str_env(exprs: &[&str]) -> Value {
    let mut env = Env::new();
    let mut last = None;
    for expr in exprs {
        let tokens = lex(expr);
        let (e, _) = parse_expr(&tokens).unwrap();
        let e = lower(&e);
        let val = eval(e, Env::root(), &mut env);
        last = Some(val);
    }
    last.unwrap().unwrap()
}

fn num(n: f64) -> Value {
    Value::Num(n.to_bits())
}

fn sym(s: &str) -> Value {
    Value::Symbol(s.into())
}

fn cons(head: Value, tail: Value) -> Value {
    Value::Cons(Rc::new((head, tail)))
}

fn eval_err(s: &str) -> Error {
    let mut env = Env::new();
    let tokens = lex(s);
    let (expr, _) = parse_expr(&tokens).unwrap();
    let expr = lower(&expr);
    eval(expr, Env::root(), &mut env).unwrap_err()
}

fn eval_env_err(exprs: &[&str]) -> Error {
    let mut env = Env::new();
    for s in exprs {
        let tokens = lex(s);
        let (e, _) = parse_expr(&tokens).unwrap();
        let e = lower(&e);
        if let Err(err) = eval(e, Env::root(), &mut env) {
            return err;
        }
    }
    panic!("expected an error but all expressions succeeded");
}

/// The printed form of a value, numbers written as Rust writes an `f64`.
fn display(v: &Value) -> String {
    let mut out = String::new();
    for p in v.display_pieces() {
        match p {
            Piece::Text(t) => out.push_str(&t),
            Piece::Num(b) => out.push_str(&f64::from_bits(b).to_string()),
        }
    }
    out
}

#[test]
fn add_two() {
    assert_eq!(eval_str("(+ 1 2)"), num(3.0));
}

#[test]
fn add_three() {
    assert_eq!(eval_str("(+ 1 2 3)"), num(6.0));
}

#[test]
fn add_no_args() {
    assert_eq!(eval_str("(+)"), num(0.0));
}

#[test]
fn add_one_arg() {
    assert_eq!(eval_str("(+ 5)"), num(5.0));
}

#[test]
fn sub_two() {
    assert_eq!(eval_str("(- 10 3)"), num(7.0));
}

#[test]
fn sub_three() {
    assert_eq!(eval_str("(- 10 3 2)"), num(5.0));
}

#[test]
fn sub_one_arg() {
    assert_eq!(eval_str("(- 5)"), num(5.0));
}

#[test]
fn mul_two() {
    assert_eq!(eval_str("(* 3 4)"), num(12.0));
}

#[test]
fn mul_no_args() {
    assert_eq!(eval_str("(*)"), num(1.0));
}

#[test]
fn mul_one_arg() {
    assert_eq!(eval_str("(* 7)"), num(7.0));
}

#[test]
fn div_two() {
    assert_eq!(eval_str("(/ 10 2)"), num(5.0));
}

#[test]
fn div_three() {
    assert_eq!(eval_str("(/ 24 4 3)"), num(2.0));
}

#[test]
fn nested_add() {
    assert_eq!(eval_str("(+ 1 (+ 2 3))"), num(6.0));
}

#[test]
fn nested_mixed() {
    assert_eq!(eval_str("(* (+ 1 2) (- 5 2))"), num(9.0));
}

#[test]
fn arithmetic_deeply_nested() {
    assert_eq!(eval_str("(+ 1 (* 2 (- 10 (/ 6 2))))"), num(15.0));
}

#[test]
fn modulo() {
    assert_eq!(eval_str("(% 3 4)"), num(3.0));
    assert_eq!(eval_str("(% 4 3)"), num(1.0));
}
