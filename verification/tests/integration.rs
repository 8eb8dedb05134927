#![allow(dead_code, unused_imports)]

use paddle::cursor::process;
use paddle::eval::env::Env;
use paddle::eval::value::Value;

fn num(n: f64) -> Value {
    Value::Num(n.to_bits())
}

/// Runs a program on the built-ins alone; gives the value of its last expression.
fn run_bare(program: &str) -> Value {
    let mut env = Env::new();
    let mut results = process(program, Env::root(), &mut env).expect("program failed to run");
    results.pop().expect("program produced no values")
}

#[test]
fn process_returns_a_value_per_expression() {
    let mut env = Env::new();
    let results = process("(+ 1 2) (* 3 4) (- 10 5)", Env::root(), &mut env).unwrap();
    assert_eq!(results, vec![num(3.0), num(12.0), num(5.0)]);
}

#[test]
fn definition_contributes_nil_to_result_list() {
    let mut env = Env::new();
    let results = process("(def x 42)", Env::root(), &mut env).unwrap();
    assert_eq!(results, vec![Value::Nil]);
}

#[test]
fn definitions_visible_to_later_expressions_in_same_call() {
    assert_eq!(run_bare("(def (double x) (* x 2)) (double 21)"), num(42.0));
}

#[test]
fn env_persists_across_separate_process_calls() {
    let mut env = Env::new();
    process("(def (inc x) (+ x 1))", Env::root(), &mut env).expect("first call failed");
    let mut r = process("(inc 41)", Env::root(), &mut env).expect("second call failed");
    assert_eq!(r.pop().unwrap(), num(42.0));
}

#[test]
fn arithmetic() {
    assert_eq!(run_bare("(+ (* 3 4) (- 10 4))"), num(18.0));
}

#[test]
fn closure() {
    assert_eq!(
        run_bare(
            "(def (make-adder n) (lambda (x) (+ x n)))
             (def add10 (make-adder 10))
             (add10 32)"
        ),
        num(42.0)
    );
}

#[test]
fn list_operations() {
    assert_eq!(run_bare("(car (cdr (list 10 20 30)))"), num(20.0));
}
