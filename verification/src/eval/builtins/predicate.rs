//! Type predicates: `number?`, `symbol?`, `string?`, `char?`, `atom?`, `null?`, `pair?`,
//! and a boolean test. Each takes exactly one argument.
use vstd::prelude::*;

use crate::eval::env::BuiltinError;
use crate::eval::value::{bview, scons, SVal, Value};

verus! {

#[derive(Clone, Copy)]
pub enum PredKind {
    Number,
    Bool,
    Symbol,
    Char,
    Str,
    Atom,
    Null,
    Pair,
}

/// Whether `v` is of the kind.
pub open spec fn spec_holds(k: PredKind, v: SVal) -> bool {
    match k {
        PredKind::Number => v is Num,
        PredKind::Bool => v is Bool,
        PredKind::Symbol => v is Symbol,
        PredKind::Char => v is Char,
        PredKind::Str => v is Str,
        PredKind::Atom => !(v is Cons),
        PredKind::Null => v is Nil,
        PredKind::Pair => v is Cons,
    }
}

pub open spec fn spec_predicate(k: PredKind, args: SVal) -> Result<SVal, BuiltinError> {
    match args {
        SVal::Cons(a, rest) => if *rest is Cons {
            Err(BuiltinError::OnlyOneArg)
        } else {
            Ok(SVal::Bool(spec_holds(k, *a)))
        },
        _ => Err(BuiltinError::NotAnArgList),
    }
}

fn holds(k: PredKind, v: &Value) -> (r: bool)
    ensures
        r == spec_holds(k, v@),
{
    match k {
        PredKind::Number => matches!(v, Value::Num(_)),
        PredKind::Bool => matches!(v, Value::Bool(_)),
        PredKind::Symbol => matches!(v, Value::Symbol(_)),
        PredKind::Char => matches!(v, Value::Char(_)),
        PredKind::Str => matches!(v, Value::Str(_)),
        PredKind::Atom => !matches!(v, Value::Cons(_)),
        PredKind::Null => matches!(v, Value::Nil),
        PredKind::Pair => matches!(v, Value::Cons(_)),
    }
}

fn predicate(k: PredKind, args: &Value) -> (r: Result<Value, BuiltinError>)
    ensures
        bview(r) == spec_predicate(k, args@),
{
    let pair = match args {
        Value::Cons(pair) => pair,
        _ => {
            return Err(BuiltinError::NotAnArgList);
        },
    };
    assert(args@ == scons(pair.0@, pair.1@));
    if let Value::Cons(_) = &pair.1 {
        return Err(BuiltinError::OnlyOneArg);
    }
    Ok(Value::Bool(holds(k, &pair.0)))
}

pub fn is_number(args: &Value) -> (r: Result<Value, BuiltinError>)
    ensures
        bview(r) == spec_predicate(PredKind::Number, args@),
{
    predicate(PredKind::Number, args)
}

pub fn is_bool(args: &Value) -> (r: Result<Value, BuiltinError>)
    ensures
        bview(r) == spec_predicate(PredKind::Bool, args@),
{
    predicate(PredKind::Bool, args)
}

pub fn is_symbol(args: &Value) -> (r: Result<Value, BuiltinError>)
    ensures
        bview(r) == spec_predicate(PredKind::Symbol, args@),
{
    predicate(PredKind::Symbol, args)
}

pub fn is_char(args: &Value) -> (r: Result<Value, BuiltinError>)
    ensures
        bview(r) == spec_predicate(PredKind::Char, args@),
{
    predicate(PredKind::Char, args)
}

pub fn is_string(args: &Value) -> (r: Result<Value, BuiltinError>)
    ensures
        bview(r) == spec_predicate(PredKind::Str, args@),
{
    predicate(PredKind::Str, args)
}

pub fn is_atom(args: &Value) -> (r: Result<Value, BuiltinError>)
    ensures
        bview(r) == spec_predicate(PredKind::Atom, args@),
{
    predicate(PredKind::Atom, args)
}

pub fn is_null(args: &Value) -> (r: Result<Value, BuiltinError>)
    ensures
        bview(r) == spec_predicate(PredKind::Null, args@),
{
    predicate(PredKind::Null, args)
}

pub fn is_pair(args: &Value) -> (r: Result<Value, BuiltinError>)
    ensures
        bview(r) == spec_predicate(PredKind::Pair, args@),
{
    predicate(PredKind::Pair, args)
}

} // verus!
