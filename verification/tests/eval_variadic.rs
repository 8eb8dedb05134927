#![allow(dead_code, unused_imports)]

use std::rc::Rc;

use paddle::eval::display::Piece;
use paddle::eval::env::{BuiltinError, Env};
use paddle::eval::error::{Error, EvalError};
use paddle::eval::eval::eval;
use paddle::eval::lower::lower;
use paddle::eval::value::{Form, Value};
use paddle::lexer::lex;
use paddle::parser::parse_expr;

fn eval_str(s: &str) -> Value {
    let mut env = Env::new();
    let tokens = lex(s);
    let (expr, _) = parse_expr(&tokens).unwrap();
    let expr = lower(&expr);
    eval(expr, Env::root(), &mut env).unwrap()
}

fn eval_str_env(exprs: &[&str]) -> Value {
    let mut env = Env::new();
    let mut last = None;
    for expr in exprs {
        let tokens = lex(expr);
        let (e, _) = parse_expr(&tokens).unwrap();
        let e = lower(&e);
        let val = eval(e, Env::root(), &mut env);
        last = Some(val);
    }
    last.unwrap().unwrap()
}

fn num(n: f64) -> Value {
    Value::Num(n.to_bits())
}

fn sym(s: &str) -> Value {
    Value::Symbol(s.into())
}

fn cons(head: Value, tail: Value) -> Value {
    Value::Cons(Rc::new((head, tail)))
}

fn eval_err(s: &str) -> Error {
    let mut env = Env::new();
    let tokens = lex(s);
    let (expr, _) = parse_expr(&tokens).unwrap();
    let expr = lower(&expr);
    eval(expr, Env::root(), &mut env).unwrap_err()
}

fn eval_env_err(exprs: &[&str]) -> Error {
    let mut env = Env::new();
    for s in exprs {
        let tokens = lex(s);
        let (e, _) = parse_expr(&tokens).unwrap();
        let e = lower(&e);
        if let Err(err) = eval(e, Env::root(), &mut env) {
            return err;
        }
    }
    panic!("expected an error but all expressions succeeded");
}

/// The printed form of a value, numbers written as Rust writes an `f64`.
fn display(v: &Value) -> String {
    let mut out = String::new();
    for p in v.display_pieces() {
        match p {
            Piece::Text(t) => out.push_str(&t),
            Piece::Num(b) => out.push_str(&f64::from_bits(b).to_string()),
        }
    }
    out
}

#[test]
fn define_variadic() {
    assert_eq!(
        eval_str_env(&[
            "(def (sum xs)
                (if xs
                 (+ (car xs) (sum (cdr xs)))
                 0))",
            "(def (f x...) (sum x...))",
            "(f 1 2 3)"
        ]),
        num(6.0)
    );
}

#[test]
fn define_variadic_lambda() {
    assert_eq!(
        eval_str_env(&[
            "(def (sum xs)
                (if xs
                 (+ (car xs) (sum (cdr xs)))
                 0))",
            "((.\\ (x...) (sum x...)) 1 2 3)"
        ]),
        num(6.0)
    );
}

#[test]
fn define_variadic_eval() {
    assert_eq!(
        eval_str_env(&[
            "(def (sum xs)
                (if xs
                 (+ (car xs) (sum (cdr xs)))
                 0))",
            "(def (f x...) (sum x...))",
            "(f 1 2 (+ 1 2))"
        ]),
        num(6.0)
    );
}

#[test]
fn define_variadic_lambda_eval() {
    assert_eq!(
        eval_str_env(&[
            "(def (sum xs)
                (if xs
                 (+ (car xs) (sum (cdr xs)))
                 0))",
            "((.\\ (x...) (sum x...)) 1 2 (+ 1 2))"
        ]),
        num(6.0)
    );
}

#[test]
fn define_variadic_macro() {
    assert_eq!(
        eval_str_env(&[
            "
(defmacro (cond pairs...)
    (define (cond2 pairs)
      (if pairs
       `(if ,(car (car pairs))
            ,(car (cdr (car pairs)))
            ,(cond2 (cdr pairs)))
        '()))
    (cond2 pairs...))",
            "
(def (f v)
    (cond
        ((= 0 v) 'zero)
        ((= 0 (% v 2)) 'even)
        (#t 'odd)))",
            "(list (f 0) (f 1) (f 4))"
        ]),
        Value::to_cons_list(vec![sym("zero"), sym("odd"), sym("even"),])
    );
}
