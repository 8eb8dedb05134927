#![allow(dead_code, unused_imports)]

use std::rc::Rc;

use paddle::eval::display::Piece;
use paddle::eval::env::{BuiltinError, Env};
use paddle::eval::error::{Error, EvalError};
use paddle::eval::eval::eval;
use paddle::eval::lower::lower;
use paddle::eval::value::{Form, Value};
use paddle::lexer::lex;
use paddle::parser::parse_expr;

fn eval_str(s: &str) -> Value {
    let mut env = Env::new();
    let tokens = lex(s);
    let (expr, _) = parse_expr(&tokens).unwrap();
    let expr = lower(&expr);
    eval(expr, Env::root(), &mut env).unwrap()
}

fn eval_str_env(exprs: &[&str]) -> Value {
    let mut env = Env::new();
    let mut last = None;
    for expr in exprs {
        let tokens = lex(expr);
        let (e, _) = parse_expr(&tokens).unwrap();
        let e = lower(&e);
        let val = eval(e, Env::root(), &mut env);
        last = Some(val);
    }
    last.unwrap().unwrap()
}

fn num(n: f64) -> Value {
    Value::Num(n.to_bits())
}

fn sym(s: &str) -> Value {
    Value::Symbol(s.into())
}

fn cons(head: Value, tail: Value) -> Value {
    Value::Cons(Rc::new((head, tail)))
}

fn eval_err(s: &str) -> Error {
    let mut env = Env::new();
    let tokens = lex(s);
    let (expr, _) = parse_expr(&tokens).unwrap();
    let expr = lower(&expr);
    eval(expr, Env::root(), &mut env).unwrap_err()
}

fn eval_env_err(exprs: &[&str]) -> Error {
    let mut env = Env::new();
    for s in exprs {
        let tokens = lex(s);
        let (e, _) = parse_expr(&tokens).unwrap();
        let e = lower(&e);
        if let Err(err) = eval(e, Env::root(), &mut env) {
            return err;
        }
    }
    panic!("expected an error but all expressions succeeded");
}

/// The printed form of a value, numbers written as Rust writes an `f64`.
fn display(v: &Value) -> String {
    let mut out = String::new();
    for p in v.display_pieces() {
        match p {
            Piece::Text(t) => out.push_str(&t),
            Piece::Num(b) => out.push_str(&f64::from_bits(b).to_string()),
        }
    }
    out
}

#[test]
fn only_element() {
    assert_eq!(
        eval_str_env(&["(def xs '(2 3))", "`(@xs)"]),
        Value::to_cons_list(vec![num(2.0), num(3.0)])
    );
}

#[test]
fn at_start() {
    assert_eq!(
        eval_str_env(&["(def xs '(1 2))", "`(@xs 3)"]),
        Value::to_cons_list(vec![num(1.0), num(2.0), num(3.0)])
    );
}

#[test]
fn at_end() {
    assert_eq!(
        eval_str_env(&["(def xs '(2 3))", "`(1 @xs)"]),
        Value::to_cons_list(vec![num(1.0), num(2.0), num(3.0)])
    );
}

#[test]
fn in_middle() {
    assert_eq!(
        eval_str_env(&["(def xs '(2 3))", "`(1 @xs 4)"]),
        Value::to_cons_list(vec![num(1.0), num(2.0), num(3.0), num(4.0)])
    );
}

#[test]
fn empty_list_is_identity() {
    assert_eq!(
        eval_str_env(&["(def xs '())", "`(1 @xs 2)"]),
        Value::to_cons_list(vec![num(1.0), num(2.0)])
    );
}

#[test]
fn singleton() {
    assert_eq!(
        eval_str_env(&["(def xs '(42))", "`(@xs)"]),
        Value::to_cons_list(vec![num(42.0)])
    );
}

#[test]
fn unquote_before_splice() {
    assert_eq!(
        eval_str_env(&["(def a 1)", "(def xs '(2 3))", "`(,a @xs)"]),
        Value::to_cons_list(vec![num(1.0), num(2.0), num(3.0)])
    );
}

#[test]
fn splice_before_unquote() {
    assert_eq!(
        eval_str_env(&["(def xs '(1 2))", "(def b 3)", "`(@xs ,b)"]),
        Value::to_cons_list(vec![num(1.0), num(2.0), num(3.0)])
    );
}

#[test]
fn splice_sandwiched_by_unquotes() {
    assert_eq!(
        eval_str_env(&["(def a 1)", "(def xs '(2 3))", "(def b 4)", "`(,a @xs ,b)"]),
        Value::to_cons_list(vec![num(1.0), num(2.0), num(3.0), num(4.0)])
    );
}

#[test]
fn two_adjacent_splices() {
    assert_eq!(
        eval_str_env(&["(def xs '(1 2))", "(def ys '(3 4))", "`(@xs @ys)"]),
        Value::to_cons_list(vec![num(1.0), num(2.0), num(3.0), num(4.0)])
    );
}

#[test]
fn two_splices_separated_by_literal() {
    assert_eq!(
        eval_str_env(&["(def xs '(1 2))", "(def ys '(4 5))", "`(@xs 3 @ys)"]),
        Value::to_cons_list(vec![num(1.0), num(2.0), num(3.0), num(4.0), num(5.0)])
    );
}

#[test]
fn inline_expression() {
    assert_eq!(
        eval_str_env(&["`(@(list 1 2) 3)"]),
        Value::to_cons_list(vec![num(1.0), num(2.0), num(3.0)])
    );
}

#[test]
fn macro_body_splice() {
    assert_eq!(
        eval_str_env(&[
            "(defm (my-progn xs...) `(progn @xs...))",
            "(my-progn (+ 1 1) (+ 2 2))"
        ]),
        num(4.0)
    );
}

#[test]
fn outside_quasiquote_errors() {
    let err = eval_env_err(&["@xs"]);
    assert_eq!(
        err.as_eval(),
        Some(&EvalError::UnquoteOutsideQuasi)
    );
}
