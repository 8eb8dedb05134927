//! Arithmetic built-ins: `+`, `-`, `*`, `/`, `<` and `%`.
//!
//! Each walks its argument list and stops at the first `nil` item, as at the end of
//! the list.
use vstd::prelude::*;

use crate::eval::env::BuiltinError;
use crate::eval::num::{add_bits, div_bits, double_add, double_div, double_lt, double_mul, double_rem, double_sub, mul_bits, num_lt, rem_bits, sub_bits, ONE_BITS, ZERO_BITS};
use crate::eval::value::{bview, scons, SVal, Value};

verus! {

/// The operation a fold applies.
#[derive(Clone, Copy)]
pub enum ArithOp {
    Add,
    Sub,
    Mul,
    Div,
}

pub open spec fn spec_op(op: ArithOp, a: u64, b: u64) -> u64 {
    match op {
        ArithOp::Add => double_add(a, b),
        ArithOp::Sub => double_sub(a, b),
        ArithOp::Mul => double_mul(a, b),
        ArithOp::Div => double_div(a, b),
    }
}

fn apply_op(op: ArithOp, a: u64, b: u64) -> (r: u64)
    ensures
        r == spec_op(op, a, b),
{
    match op {
        ArithOp::Add => add_bits(a, b),
        ArithOp::Sub => sub_bits(a, b),
        ArithOp::Mul => mul_bits(a, b),
        ArithOp::Div => div_bits(a, b),
    }
}

/// Folds `op` over the numbers of the list `v`, starting from `acc`; a `nil` item ends
/// the fold, any other non-number is an error.
pub open spec fn spec_fold(op: ArithOp, acc: u64, v: SVal) -> Result<u64, BuiltinError>
    decreases v,
{
    match v {
        SVal::Cons(h, t) => match *h {
            SVal::Num(x) => spec_fold(op, spec_op(op, acc, x), *t),
            SVal::Nil => Ok(acc),
            _ => Err(BuiltinError::ExpectedNumArg),
        },
        _ => Ok(acc),
    }
}

pub open spec fn num_result(r: Result<u64, BuiltinError>) -> Result<SVal, BuiltinError> {
    match r {
        Ok(n) => Ok(SVal::Num(n)),
        Err(e) => Err(e),
    }
}

fn fold(op: ArithOp, acc: u64, args: &Value) -> (r: Result<u64, BuiltinError>)
    ensures
        r == spec_fold(op, acc, args@),
{
    let mut hold: &Value = args;
    let mut num = acc;
    loop
        invariant
            spec_fold(op, num, hold@) == spec_fold(op, acc, args@),
        decreases hold@,
    {
        match hold {
            Value::Cons(pair) => {
                match &pair.0 {
                    Value::Num(val) => {
                        num = apply_op(op, num, *val);
                        hold = &pair.1;
                    },
                    Value::Nil => {
                        return Ok(num);
                    },
                    _ => {
                        return Err(BuiltinError::ExpectedNumArg);
                    },
                }
            },
            _ => {
                return Ok(num);
            },
        }
    }
}

/// The sum of the numbers; 0 for none.
pub open spec fn spec_add(args: SVal) -> Result<SVal, BuiltinError> {
    if !(args is Cons || args is Nil) {
        Err(BuiltinError::NotAnArgList)
    } else {
        num_result(spec_fold(ArithOp::Add, ZERO_BITS, args))
    }
}

pub fn add(args: &Value) -> (r: Result<Value, BuiltinError>)
    ensures
        bview(r) == spec_add(args@),
{
    if !matches!(args, Value::Cons(_) | Value::Nil) {
        return Err(BuiltinError::NotAnArgList);
    }
    match fold(ArithOp::Add, ZERO_BITS, args) {
        Ok(n) => Ok(Value::Num(n)),
        Err(e) => Err(e),
    }
}

/// The product of the numbers; 1 for none.
pub open spec fn spec_mul(args: SVal) -> Result<SVal, BuiltinError> {
    if !(args is Cons || args is Nil) {
        Err(BuiltinError::NoInitforDiv)
    } else {
        num_result(spec_fold(ArithOp::Mul, ONE_BITS, args))
    }
}

pub fn mul(args: &Value) -> (r: Result<Value, BuiltinError>)
    ensures
        bview(r) == spec_mul(args@),
{
    if !matches!(args, Value::Cons(_) | Value::Nil) {
        return Err(BuiltinError::NoInitforDiv);
    }
    match fold(ArithOp::Mul, ONE_BITS, args) {
        Ok(n) => Ok(Value::Num(n)),
        Err(e) => Err(e),
    }
}

/// The first number with `op` applied to it and each of the rest in turn.
pub open spec fn spec_reduce(op: ArithOp, args: SVal, no_init: BuiltinError) -> Result<
    SVal,
    BuiltinError,
> {
    match args {
        SVal::Cons(h, t) => match *h {
            SVal::Num(first) => num_result(spec_fold(op, first, *t)),
            SVal::Nil => Err(no_init),
            _ => Err(BuiltinError::ExpectedNumArg),
        },
        _ => Err(no_init),
    }
}

fn reduce(op: ArithOp, args: &Value, no_init: BuiltinError) -> (r: Result<Value, BuiltinError>)
    ensures
        bview(r) == spec_reduce(op, args@, no_init),
{
    match args {
        Value::Cons(pair) => {
            assert(args@ == scons(pair.0@, pair.1@));
            match &pair.0 {
            Value::Num(first) => match fold(op, *first, &pair.1) {
                Ok(n) => Ok(Value::Num(n)),
                Err(e) => Err(e),
            },
            Value::Nil => Err(no_init),
            _ => Err(BuiltinError::ExpectedNumArg),
        }
        },
        _ => Err(no_init),
    }
}

/// The first number minus each of the rest; the first alone when it is the only one.
pub open spec fn spec_min(args: SVal) -> Result<SVal, BuiltinError> {
    spec_reduce(ArithOp::Sub, args, BuiltinError::NoInitforMinus)
}

pub fn min(args: &Value) -> (r: Result<Value, BuiltinError>)
    ensures
        bview(r) == spec_min(args@),
{
    reduce(ArithOp::Sub, args, BuiltinError::NoInitforMinus)
}

/// The first number divided by each of the rest.
pub open spec fn spec_div(args: SVal) -> Result<SVal, BuiltinError> {
    spec_reduce(ArithOp::Div, args, BuiltinError::NoInitforDiv)
}

pub fn div(args: &Value) -> (r: Result<Value, BuiltinError>)
    ensures
        bview(r) == spec_div(args@),
{
    reduce(ArithOp::Div, args, BuiltinError::NoInitforDiv)
}

/// Whether the numbers from `prev` on strictly increase, and-ed into `pass`.
pub open spec fn spec_lt_from(prev: u64, pass: bool, v: SVal) -> Result<SVal, BuiltinError>
    decreases v,
{
    match v {
        SVal::Cons(h, t) => match *h {
            SVal::Num(x) => spec_lt_from(x, pass && double_lt(prev, x), *t),
            SVal::Nil => Ok(SVal::Bool(pass)),
            _ => Err(BuiltinError::ExpectedNumArg),
        },
        _ => Ok(SVal::Bool(pass)),
    }
}

/// Whether the numbers strictly increase.
pub open spec fn spec_lt(args: SVal) -> Result<SVal, BuiltinError> {
    match args {
        SVal::Cons(h, t) => match *h {
            SVal::Num(first) => spec_lt_from(first, true, *t),
            _ => Err(BuiltinError::ExpectedNumArg),
        },
        _ => Err(BuiltinError::BadLtArgTypes),
    }
}

pub fn lt(args: &Value) -> (r: Result<Value, BuiltinError>)
    ensures
        bview(r) == spec_lt(args@),
{
    let pair = match args {
        Value::Cons(pair) => pair,
        _ => {
            return Err(BuiltinError::BadLtArgTypes);
        },
    };
    assert(args@ == scons(pair.0@, pair.1@));
    let mut num = match &pair.0 {
        Value::Num(n) => *n,
        _ => {
            return Err(BuiltinError::ExpectedNumArg);
        },
    };
    let mut hold: &Value = &pair.1;
    let mut pass = true;
    loop
        invariant
            spec_lt_from(num, pass, hold@) == spec_lt(args@),
        decreases hold@,
    {
        match hold {
            Value::Cons(p) => {
                match &p.0 {
                    Value::Num(val) => {
                        pass = pass && num_lt(num, *val);
                        num = *val;
                        hold = &p.1;
                    },
                    Value::Nil => {
                        return Ok(Value::Bool(pass));
                    },
                    _ => {
                        return Err(BuiltinError::ExpectedNumArg);
                    },
                }
            },
            _ => {
                return Ok(Value::Bool(pass));
            },
        }
    }
}

/// The remainder of the first number divided by the second.
pub open spec fn spec_modulo(args: SVal) -> Result<SVal, BuiltinError> {
    match args {
        SVal::Cons(a, rest) => match *rest {
            SVal::Cons(b, rest2) => if *rest2 is Cons {
                Err(BuiltinError::BadModArgCount)
            } else {
                match (*a, *b) {
                    (SVal::Num(x), SVal::Num(y)) => Ok(SVal::Num(double_rem(x, y))),
                    _ => Err(BuiltinError::BadModArgTypes),
                }
            },
            _ => Err(BuiltinError::NotAnArgList),
        },
        _ => Err(BuiltinError::NotAnArgList),
    }
}

pub fn modulo(args: &Value) -> (r: Result<Value, BuiltinError>)
    ensures
        bview(r) == spec_modulo(args@),
{
    let pair = match args {
        Value::Cons(pair) => pair,
        _ => {
            return Err(BuiltinError::NotAnArgList);
        },
    };
    assert(args@ == scons(pair.0@, pair.1@));
    let pair2 = match &pair.1 {
        Value::Cons(pair2) => pair2,
        _ => {
            return Err(BuiltinError::NotAnArgList);
        },
    };
    assert(pair.1@ == scons(pair2.0@, pair2.1@));
    if let Value::Cons(_) = &pair2.1 {
        return Err(BuiltinError::BadModArgCount);
    }
    match (&pair.0, &pair2.0) {
        (Value::Num(penu), Value::Num(last)) => Ok(Value::Num(rem_bits(*penu, *last))),
        _ => Err(BuiltinError::BadModArgTypes),
    }
}

} // verus!
