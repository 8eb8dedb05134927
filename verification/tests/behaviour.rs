#![allow(dead_code, unused_imports)]

use std::rc::Rc;

use paddle::eval::display::Piece;
use paddle::eval::env::{BuiltinError, Env};
use paddle::eval::error::{Error, EvalError};
use paddle::eval::eval::eval;
use paddle::eval::lower::lower;
use paddle::eval::value::{Form, Value};
use paddle::lexer::lex;
use paddle::parser::parse_expr;

fn eval_str(s: &str) -> Value {
    let mut env = Env::new();
    let tokens = lex(s);
    let (expr, _) = parse_expr(&tokens).unwrap();
    let expr = lower(&expr);
    eval(expr, Env::root(), &mut env).unwrap()
}

fn eval_str_env(exprs: &[&str]) -> Value {
    let mut env = Env::new();
    let mut last = None;
    for expr in exprs {
        let tokens = lex(expr);
        let (e, _) = parse_expr(&tokens).unwrap();
        let e = lower(&e);
        let val = eval(e, Env::root(), &mut env);
        last = Some(val);
    }
    last.unwrap().unwrap()
}

fn num(n: f64) -> Value {
    Value::Num(n.to_bits())
}

fn sym(s: &str) -> Value {
    Value::Symbol(s.into())
}

fn cons(head: Value, tail: Value) -> Value {
    Value::Cons(Rc::new((head, tail)))
}

fn eval_err(s: &str) -> Error {
    let mut env = Env::new();
    let tokens = lex(s);
    let (expr, _) = parse_expr(&tokens).unwrap();
    let expr = lower(&expr);
    eval(expr, Env::root(), &mut env).unwrap_err()
}

fn eval_env_err(exprs: &[&str]) -> Error {
    let mut env = Env::new();
    for s in exprs {
        let tokens = lex(s);
        let (e, _) = parse_expr(&tokens).unwrap();
        let e = lower(&e);
        if let Err(err) = eval(e, Env::root(), &mut env) {
            return err;
        }
    }
    panic!("expected an error but all expressions succeeded");
}

/// The printed form of a value, numbers written as Rust writes an `f64`.
fn display(v: &Value) -> String {
    let mut out = String::new();
    for p in v.display_pieces() {
        match p {
            Piece::Text(t) => out.push_str(&t),
            Piece::Num(b) => out.push_str(&f64::from_bits(b).to_string()),
        }
    }
    out
}


fn eval_in(env: &mut Env, s: &str) -> Result<Value, Error> {
    let tokens = lex(s);
    let (e, _) = parse_expr(&tokens).unwrap();
    eval(lower(&e), Env::root(), env)
}

fn eval_error(s: &str) -> EvalError {
    eval_err(s).as_eval().cloned().expect("an evaluation error")
}

fn builtin_error(s: &str) -> BuiltinError {
    *eval_err(s).as_builtin().expect("a built-in error")
}

fn list(items: Vec<Value>) -> Value {
    Value::to_cons_list(items)
}

// --- what the library promises of definitions, scopes and forms ---

#[test]
fn define_then_evaluate_gives_the_value() {
    let mut env = Env::new();
    assert_eq!(eval_in(&mut env, "(def answer (* 6 7))").unwrap(), Value::Nil);
    assert_eq!(eval_in(&mut env, "answer").unwrap(), num(42.0));
}

#[test]
fn builtins_come_before_definitions() {
    assert_eq!(eval_str_env(&["(def + 5)", "(+ 1 2)"]), num(3.0));
}

#[test]
fn parameters_are_not_seen_by_the_caller() {
    let err = eval_env_err(&["(def (f y) y)", "(f 1)", "y"]);
    assert_eq!(err.as_eval(), Some(&EvalError::SymbolUndefined("y".into())));
}

#[test]
fn closures_keep_their_frame_across_calls() {
    assert_eq!(
        eval_str_env(&[
            "(def (make-adder n) (lambda (x) (+ x n)))",
            "(def add1 (make-adder 1))",
            "(def add2 (make-adder 2))",
            "(add1 1)",
            "(add2 (add1 (add2 0)))"
        ]),
        num(5.0)
    );
}

#[test]
fn quote_does_not_evaluate_its_argument() {
    assert_eq!(
        eval_str("(quote (undefined-fn 1))"),
        list(vec![sym("undefined-fn"), num(1.0)])
    );
}

#[test]
fn if_condition_effects_stay() {
    assert_eq!(eval_str_env(&["(if (progn (def z 7) #t) z 0)"]), num(7.0));
}

#[test]
fn progn_of_one_expression_is_that_expression() {
    assert_eq!(eval_str("(progn (+ 2 3))"), num(5.0));
}

#[test]
fn atoms_evaluate_to_themselves() {
    assert_eq!(eval_str(r#""abc""#), Value::Str("abc".into()));
    assert_eq!(eval_str("#t"), Value::Bool(true));
    assert_eq!(eval_str("nil"), Value::Nil);
    assert_eq!(eval_str("3.5"), num(3.5));
}

#[test]
fn quasiquote_without_unquote_is_quote() {
    assert_eq!(
        eval_str("`(a (b c) 1)"),
        list(vec![sym("a"), list(vec![sym("b"), sym("c")]), num(1.0)])
    );
}

#[test]
fn car_and_cdr_undo_cons() {
    assert_eq!(eval_str("(car (cons 1 2))"), num(1.0));
    assert_eq!(eval_str("(cdr (cons 1 2))"), num(2.0));
}

#[test]
fn list_of_values_is_a_chain_of_pairs() {
    assert_eq!(
        list(vec![num(1.0), num(2.0)]),
        cons(num(1.0), cons(num(2.0), Value::Nil))
    );
}

#[test]
fn a_list_holding_false_is_true() {
    assert_eq!(eval_str("(if (list #f) 1 2)"), num(1.0));
}

#[test]
fn eval_form_evaluates_a_quoted_expression() {
    assert_eq!(eval_str("(eval '(+ 1 2))"), num(3.0));
}

#[test]
fn macro_arguments_are_not_evaluated() {
    assert_eq!(
        eval_str_env(&["(defm (my-quote x) (list 'quote x))", "(my-quote (a b))"]),
        list(vec![sym("a"), sym("b")])
    );
}

// --- require ---

#[test]
fn require_runs_a_registered_source() {
    let mut env = Env::new();
    env.add_source("lib.pd", "(def q 9) (def (twice x) (* 2 x))");
    assert_eq!(eval_in(&mut env, r#"(require "lib.pd")"#).unwrap(), Value::Nil);
    assert_eq!(eval_in(&mut env, "(twice q)").unwrap(), num(18.0));
}

#[test]
fn require_takes_a_symbol() {
    let mut env = Env::new();
    env.add_source("lib", "(def q 3)");
    assert_eq!(eval_in(&mut env, "(require lib)").unwrap(), Value::Nil);
    assert_eq!(eval_in(&mut env, "q").unwrap(), num(3.0));
}

#[test]
fn require_of_an_unknown_source() {
    assert_eq!(
        eval_error(r#"(require "nowhere.pd")"#),
        EvalError::RequireUnavailable("nowhere.pd".into())
    );
}

#[test]
fn require_passes_on_errors_of_the_source() {
    let mut env = Env::new();
    env.add_source("bad", "(def a 1) (car 5)");
    let err = eval_in(&mut env, "(require bad)").unwrap_err();
    assert_eq!(err.as_builtin(), Some(&BuiltinError::WrongCarArgType));
    assert_eq!(eval_in(&mut env, "a").unwrap(), num(1.0));
}

#[test]
fn require_arity_errors() {
    assert_eq!(eval_error("(require)"), EvalError::BadRequireArgCount(0));
    assert_eq!(eval_error(r#"(require "a" "b")"#), EvalError::BadRequireArgCount(2));
    assert_eq!(eval_error("(require 1)"), EvalError::BadRequireArgs);
}

// --- evaluation errors ---

#[test]
fn define_shape_errors() {
    assert_eq!(eval_error("(def x)"), EvalError::BadDefineArgs);
    assert_eq!(eval_error("(def)"), EvalError::BadDefineArgs);
    assert_eq!(eval_error("(def x 1 2)"), EvalError::BadDefineArgs);
    assert_eq!(eval_error("(def 5 1)"), EvalError::BadDefineHead);
    assert_eq!(eval_error("(def () 1)"), EvalError::BadDefineHead);
}

#[test]
fn if_shape_errors() {
    assert_eq!(eval_error("(if #t 1)"), EvalError::BadIfArgs);
    assert_eq!(eval_error("(if #t 1 2 3)"), EvalError::BadIfArgs);
    assert_eq!(eval_error("(if)"), EvalError::BadIfArgs);
}

#[test]
fn too_few_arguments() {
    let err = eval_env_err(&["(def (f x y) x)", "(f 1)"]);
    assert_eq!(err.as_eval(), Some(&EvalError::BadFunctionArgCount(2)));
}

#[test]
fn empty_progn() {
    assert_eq!(eval_error("(progn)"), EvalError::EmptyPrognBody);
}

#[test]
fn unquote_outside_quasiquote() {
    assert_eq!(eval_error(",x"), EvalError::UnquoteOutsideQuasi);
    assert_eq!(eval_error("@x"), EvalError::UnquoteOutsideQuasi);
}

#[test]
fn variadic_parameter_must_be_last() {
    assert_eq!(
        eval_error("((lambda (xs... y) 1) 1 2)"),
        EvalError::VariadicArgsMustBeLast
    );
}

#[test]
fn callable_shape_errors() {
    assert_eq!(eval_error("(lambda x 1)"), EvalError::BadCallableArgs(Form::Lambda));
    assert_eq!(eval_error("(lambda)"), EvalError::BadCallableArgs(Form::Lambda));
    assert_eq!(
        eval_error("(lambda (1) 1)"),
        EvalError::BadCallableArgsListType(Form::Lambda)
    );
    assert_eq!(
        eval_error("(def (f 1) 1)"),
        EvalError::BadCallableArgsListType(Form::Define)
    );
    assert_eq!(eval_error("(lambda (x))"), EvalError::BadCallableBodyArgs(Form::Lambda));
    assert_eq!(eval_error("(defm (m x))"), EvalError::BadCallableBodyArgs(Form::DefineMacro));
}

#[test]
fn quote_without_argument() {
    assert_eq!(eval_error("(quote)"), EvalError::BadQuoteArgs);
    assert_eq!(eval_error("(quasiquote)"), EvalError::BadQuoteArgs);
}

#[test]
fn splicing_a_number() {
    assert_eq!(eval_error("`(1 @5)"), EvalError::SpliceNotList);
}

#[test]
fn set_bang_of_an_unbound_name() {
    let mut env = Env::new();
    assert_eq!(
        env.set_bang(Env::root(), "nope", Value::Nil),
        Err(EvalError::SetUndefined("nope".into()))
    );
}

#[test]
fn set_bang_changes_the_nearest_binding() {
    let mut env = Env::new();
    eval_in(&mut env, "(def v 1)").unwrap();
    let child = env.new_child(Env::root());
    assert_eq!(env.set_bang(child, "v", num(2.0)), Ok(()));
    assert_eq!(eval_in(&mut env, "v").unwrap(), num(2.0));
}

// --- built-in errors ---

#[test]
fn builtin_arity_errors() {
    assert_eq!(builtin_error("(not 1 2)"), BuiltinError::WrongNotArgCount);
    assert_eq!(builtin_error("(not)"), BuiltinError::NotAnArgList);
    assert_eq!(builtin_error("(cons 1)"), BuiltinError::WrongConsArgCount);
    assert_eq!(builtin_error("(% 1 2 3)"), BuiltinError::BadModArgCount);
    assert_eq!(builtin_error("(% 1)"), BuiltinError::NotAnArgList);
    assert_eq!(builtin_error("(= 1 2 3)"), BuiltinError::BadEqArgCount);
    assert_eq!(builtin_error("(= 1)"), BuiltinError::NotAnArgList);
    assert_eq!(builtin_error("(number? 1 2)"), BuiltinError::OnlyOneArg);
    assert_eq!(builtin_error("(append '(1))"), BuiltinError::WrongAppendArgCount);
    assert_eq!(builtin_error("(char)"), BuiltinError::WrongCharArgCount);
}

#[test]
fn builtin_type_errors() {
    assert_eq!(builtin_error("(car 1)"), BuiltinError::WrongCarArgType);
    assert_eq!(builtin_error("(cdr 1)"), BuiltinError::WrongCdrArgType);
    assert_eq!(builtin_error(r#"(% "a" 1)"#), BuiltinError::BadModArgTypes);
    assert_eq!(builtin_error("(append 1 '(2))"), BuiltinError::AppendNotAList);
    assert_eq!(builtin_error("(char 256)"), BuiltinError::BadCharArg);
    assert_eq!(builtin_error(r#"(* "a")"#), BuiltinError::ExpectedNumArg);
}

#[test]
fn builtin_missing_first_argument() {
    assert_eq!(builtin_error("(-)"), BuiltinError::NoInitforMinus);
    assert_eq!(builtin_error("(/)"), BuiltinError::NoInitforDiv);
}

// --- numbers go through IEEE-754 arithmetic ---

#[test]
fn float_sum_rounds_as_ieee() {
    assert_eq!(eval_str("(+ 0.1 0.2)"), num(0.1 + 0.2));
}

#[test]
fn float_difference_product_quotient() {
    assert_eq!(eval_str("(- 1 0.9)"), num(1.0 - 0.9));
    assert_eq!(eval_str("(* 1.1 1.1)"), num(1.1 * 1.1));
    assert_eq!(eval_str("(/ 1 3)"), num(1.0 / 3.0));
}

#[test]
fn float_remainder() {
    assert_eq!(eval_str("(% 7.5 2)"), num(7.5 % 2.0));
    assert_eq!(eval_str("(% -7 2)"), num(-7.0 % 2.0));
}

#[test]
fn number_literals() {
    assert_eq!(eval_str("1e3"), num(1000.0));
    assert_eq!(eval_str("-2.5"), num(-2.5));
    assert_eq!(eval_str(".5"), num(0.5));
    assert_eq!(eval_str("inf"), num(f64::INFINITY));
    assert_eq!(eval_str("-Infinity"), num(f64::NEG_INFINITY));
    match eval_str("NaN") {
        Value::Num(b) => assert!(f64::from_bits(b).is_nan()),
        other => panic!("not a number: {:?}", other),
    }
}

#[test]
fn division_by_zero_is_infinite() {
    assert_eq!(eval_str("(/ 1 0)"), num(f64::INFINITY));
}

// --- printing ---

#[test]
fn printed_forms() {
    assert_eq!(display(&eval_str("'(1 2 3)")), "'(1 2 3)");
    assert_eq!(display(&eval_str("'((1) 2)")), "'('(1) 2)");
    assert_eq!(display(&eval_str("(cons 1 2)")), "'(1 2)");
    assert_eq!(display(&eval_str("'foo")), ":foo");
    assert_eq!(display(&eval_str(r#""hi there""#)), "hi there");
    assert_eq!(display(&eval_str("#f")), "#f");
    assert_eq!(display(&eval_str("nil")), "nil");
    assert_eq!(display(&eval_str("'if")), "If");
    assert_eq!(display(&eval_str("2.5")), "2.5");
    assert_eq!(display(&eval_str("(char 233)")), "'\u{e9}'");
}

#[test]
fn printed_procedures() {
    assert_eq!(display(&eval_str("+")), "built-in: + (...) {...}");
    assert_eq!(
        display(&eval_str_env(&["(def (f x y) x)", "f"])),
        "func: f (x y) {...}"
    );
    assert_eq!(display(&eval_str("(lambda (x) x)")), "lambda: (x) {...}");
    assert_eq!(display(&eval_str("(lambda () 1)")), "lambda: () {...}");
    assert_eq!(
        display(&eval_str_env(&["(defm (m a) a)", "m"])),
        "macro: m (a) {...}"
    );
}
