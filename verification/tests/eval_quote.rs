#![allow(dead_code, unused_imports)]

use std::rc::Rc;

use paddle::eval::display::Piece;
use paddle::eval::env::{BuiltinError, Env};
use paddle::eval::error::{Error, EvalError};
use paddle::eval::eval::eval;
use paddle::eval::lower::lower;
use paddle::eval::value::{Form, Value};
use paddle::lexer::lex;
use paddle::parser::parse_expr;

fn eval_str(s: &str) -> Value {
    let mut env = Env::new();
    let tokens = lex(s);
    let (expr, _) = parse_expr(&tokens).unwrap();
    let expr = lower(&expr);
    eval(expr, Env::root(), &mut env).unwrap()
}

fn eval_str_env(exprs: &[&str]) -> Value {
    let mut env = Env::new();
    let mut last = None;
    for expr in exprs {
        let tokens = lex(expr);
        let (e, _) = parse_expr(&tokens).unwrap();
        let e = lower(&e);
        let val = eval(e, Env::root(), &mut env);
        last = Some(val);
    }
    last.unwrap().unwrap()
}

fn num(n: f64) -> Value {
    Value::Num(n.to_bits())
}

fn sym(s: &str) -> Value {
    Value::Symbol(s.into())
}

fn cons(head: Value, tail: Value) -> Value {
    Value::Cons(Rc::new((head, tail)))
}

fn eval_err(s: &str) -> Error {
    let mut env = Env::new();
    let tokens = lex(s);
    let (expr, _) = parse_expr(&tokens).unwrap();
    let expr = lower(&expr);
    eval(expr, Env::root(), &mut env).unwrap_err()
}

fn eval_env_err(exprs: &[&str]) -> Error {
    let mut env = Env::new();
    for s in exprs {
        let tokens = lex(s);
        let (e, _) = parse_expr(&tokens).unwrap();
        let e = lower(&e);
        if let Err(err) = eval(e, Env::root(), &mut env) {
            return err;
        }
    }
    panic!("expected an error but all expressions succeeded");
}

/// The printed form of a value, numbers written as Rust writes an `f64`.
fn display(v: &Value) -> String {
    let mut out = String::new();
    for p in v.display_pieces() {
        match p {
            Piece::Text(t) => out.push_str(&t),
            Piece::Num(b) => out.push_str(&f64::from_bits(b).to_string()),
        }
    }
    out
}

#[test]
fn quote_symbol() {
    assert_eq!(eval_str("(quote x)"), Value::Symbol("x".into()));
}

#[test]
fn quote_quote_number() {
    assert_eq!(eval_str("(quote 42)"), num(42.0));
    assert_eq!(eval_str("'42"), num(42.0));
}

#[test]
fn quote_nil() {
    assert_eq!(eval_str("(quote nil)"), Value::Nil);
}

#[test]
fn quote_quote_list() {
    assert_eq!(
        eval_str("(quote (1 2 3))"),
        Value::to_cons_list(vec![num(1.0), num(2.0), num(3.0)])
    );
}

#[test]
fn quote_suppresses_eval() {
    assert_eq!(
        eval_str("(quote (+ 1 2))"),
        Value::to_cons_list(vec![Value::Symbol("+".into()), num(1.0), num(2.0),])
    );
}

#[test]
fn quasi_quote() {
    assert_eq!(
        eval_str("`(1 2 ,(+ 1 2) 4))"),
        Value::to_cons_list(vec![num(1.0), num(2.0), num(3.0), num(4.0),])
    );
}

#[test]
fn quasi_nest_quote() {
    let val = eval_str_env(&[
        "(def (foldl f init xs) (if (not (xs)) init (foldl f (f (car xs) init) (cdr xs))))",
        "`(1 2 ,(foldl + 0 `(1 2 ,(- 0 3) 3)) 4))",
    ]);
    assert_eq!(
        val,
        Value::to_cons_list(vec![num(1.0), num(2.0), num(3.0), num(4.0),])
    );
}
