#![allow(dead_code, unused_imports)]

use std::rc::Rc;

use paddle::eval::lower::lower;
use paddle::eval::value::Value;
use paddle::lexer::lex;
use paddle::parser::parse_expr;

fn lower_str(s: &str) -> Value {
    let tokens = lex(s);
    let (ast, _) = parse_expr(&tokens).unwrap();
    lower(&ast)
}

fn cons(head: Value, tail: Value) -> Value {
    Value::Cons(Rc::new((head, tail)))
}

fn num(n: f64) -> Value {
    Value::Num(n.to_bits())
}

fn sym(s: &str) -> Value {
    Value::Symbol(String::from(s))
}

#[test]
fn list_three_elements() {
    assert_eq!(
        lower_str("(1 2 3)"),
        cons(num(1.0), cons(num(2.0), cons(num(3.0), Value::Nil)))
    );
}

#[test]
fn lower_empty_list() {
    // empty list lowers to a single Cons with Nil head and Nil tail
    assert_eq!(lower_str("()"), Value::Nil);
}

#[test]
fn nested_lists() {
    assert_eq!(
        lower_str("((1 1) (2 2) (3 3))"),
        cons(
            cons(num(1.0), cons(num(1.0), Value::Nil)),
            cons(
                cons(num(2.0), cons(num(2.0), Value::Nil)),
                cons(cons(num(3.0), cons(num(3.0), Value::Nil)), Value::Nil)
            )
        )
    );
}

#[test]
fn single_element_list() {
    assert_eq!(lower_str("(42)"), cons(num(42.0), Value::Nil));
}

#[test]
fn atom_num() {
    assert_eq!(lower_str("7"), num(7.0));
}

#[test]
fn atom_symbol() {
    assert_eq!(lower_str("foo"), sym("foo"));
}

#[test]
fn mixed_types() {
    assert_eq!(
        lower_str("(1 foo #t)"),
        cons(
            num(1.0),
            cons(sym("foo"), cons(Value::Bool(true), Value::Nil))
        )
    );
}

#[test]
fn lower_deeply_nested() {
    assert_eq!(
        lower_str("((()))"),
        cons(cons(Value::Nil, Value::Nil), Value::Nil)
    );
}
