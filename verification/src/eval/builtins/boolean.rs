//! Logical built-ins: `&&`, `||`, `=` and `not`.
use vstd::prelude::*;

use crate::eval::env::BuiltinError;
use crate::eval::num::{double_eq, num_eq};
use crate::eval::value::{bview, list_items, scons, spec_truthy, SVal, Value};
use crate::text::{chars_of, str_eq};

verus! {

/// Whether every item of the list is truthy.
pub open spec fn spec_all_truthy(v: SVal) -> bool
    decreases v,
{
    match v {
        SVal::Cons(h, t) => spec_truthy(*h) && spec_all_truthy(*t),
        _ => true,
    }
}

/// Whether some item of the list is truthy.
pub open spec fn spec_any_truthy(v: SVal) -> bool
    decreases v,
{
    match v {
        SVal::Cons(h, t) => spec_truthy(*h) || spec_any_truthy(*t),
        _ => false,
    }
}

pub fn and(args: &Value) -> (r: Result<Value, BuiltinError>)
    ensures
        bview(r) == Ok::<SVal, BuiltinError>(SVal::Bool(spec_all_truthy(args@))),
{
    let mut hold: &Value = args;
    let mut pass = true;
    loop
        invariant
            (pass && spec_all_truthy(hold@)) == spec_all_truthy(args@),
        decreases list_items(hold@).len(),
    {
        match hold {
            Value::Cons(pair) => {
                assert(hold@ == scons(pair.0@, pair.1@));
                let t = pair.0.truthy();
                pass = pass && t;
                hold = &pair.1;
            },
            _ => {
                return Ok(Value::Bool(pass));
            },
        }
    }
}

pub fn val_or(args: &Value) -> (r: Result<Value, BuiltinError>)
    ensures
        bview(r) == Ok::<SVal, BuiltinError>(SVal::Bool(spec_any_truthy(args@))),
{
    let mut hold: &Value = args;
    let mut pass = false;
    loop
        invariant
            (pass || spec_any_truthy(hold@)) == spec_any_truthy(args@),
        decreases list_items(hold@).len(),
    {
        match hold {
            Value::Cons(pair) => {
                assert(hold@ == scons(pair.0@, pair.1@));
                let t = pair.0.truthy();
                pass = pass || t;
                hold = &pair.1;
            },
            _ => {
                return Ok(Value::Bool(pass));
            },
        }
    }
}

/// A text of exactly one byte: a single ASCII char.
pub open spec fn one_byte(s: Seq<char>) -> bool {
    s.len() == 1 && (s[0] as u32) < 128
}

/// Whether a char value equals a text: the text is that one byte.
pub open spec fn char_text_eq(c: u8, s: Seq<char>) -> bool {
    one_byte(s) && (s[0] as u32) == (c as u32)
}

/// Equality as `=` decides it: numbers as doubles, `nil` only with `nil`, chars with
/// chars and with one-byte texts, strings and symbols by their text.
pub open spec fn spec_values_eq(a: SVal, b: SVal) -> bool {
    match (a, b) {
        (SVal::Num(x), SVal::Num(y)) => double_eq(y, x),
        (SVal::Nil, SVal::Nil) => true,
        (_, SVal::Nil) => false,
        (SVal::Nil, _) => false,
        (SVal::Char(x), SVal::Char(y)) => x == y,
        (SVal::Char(c), SVal::Str(s)) => char_text_eq(c, s),
        (SVal::Char(c), SVal::Symbol(s)) => char_text_eq(c, s),
        (SVal::Str(s), SVal::Char(c)) => char_text_eq(c, s),
        (SVal::Symbol(s), SVal::Char(c)) => char_text_eq(c, s),
        (SVal::Str(x), SVal::Str(y)) => x == y,
        (SVal::Symbol(x), SVal::Str(y)) => x == y,
        (SVal::Str(x), SVal::Symbol(y)) => x == y,
        (SVal::Symbol(x), SVal::Symbol(y)) => x == y,
        _ => false,
    }
}

pub open spec fn spec_eq(args: SVal) -> Result<SVal, BuiltinError> {
    match args {
        SVal::Cons(a, rest) => match *rest {
            SVal::Cons(b, rest2) => if *rest2 is Cons {
                Err(BuiltinError::BadEqArgCount)
            } else {
                Ok(SVal::Bool(spec_values_eq(*a, *b)))
            },
            _ => Err(BuiltinError::NotAnArgList),
        },
        _ => Err(BuiltinError::NotAnArgList),
    }
}

fn char_text_equal(c: u8, s: &String) -> (r: bool)
    ensures
        r == char_text_eq(c, s@),
{
    let cs = chars_of(s.as_str());
    cs.len() == 1 && (cs[0] as u32) < 128 && (cs[0] as u32) == (c as u32)
}

fn values_eq(a: &Value, b: &Value) -> (r: bool)
    ensures
        r == spec_values_eq(a@, b@),
{
    match (a, b) {
        (Value::Num(x), Value::Num(y)) => num_eq(*y, *x),
        (Value::Nil, Value::Nil) => true,
        (_, Value::Nil) => false,
        (Value::Nil, _) => false,
        (Value::Char(x), Value::Char(y)) => *x == *y,
        (Value::Char(c), Value::Str(s)) => char_text_equal(*c, s),
        (Value::Char(c), Value::Symbol(s)) => char_text_equal(*c, s),
        (Value::Str(s), Value::Char(c)) => char_text_equal(*c, s),
        (Value::Symbol(s), Value::Char(c)) => char_text_equal(*c, s),
        (Value::Str(x), Value::Str(y)) => str_eq(x.as_str(), y.as_str()),
        (Value::Symbol(x), Value::Str(y)) => str_eq(x.as_str(), y.as_str()),
        (Value::Str(x), Value::Symbol(y)) => str_eq(x.as_str(), y.as_str()),
        (Value::Symbol(x), Value::Symbol(y)) => str_eq(x.as_str(), y.as_str()),
        _ => false,
    }
}

pub fn eq(args: &Value) -> (r: Result<Value, BuiltinError>)
    ensures
        bview(r) == spec_eq(args@),
{
    let pair = match args {
        Value::Cons(pair) => pair,
        _ => {
            return Err(BuiltinError::NotAnArgList);
        },
    };
    assert(args@ == scons(pair.0@, pair.1@));
    let pair2 = match &pair.1 {
        Value::Cons(pair2) => pair2,
        _ => {
            return Err(BuiltinError::NotAnArgList);
        },
    };
    assert(pair.1@ == scons(pair2.0@, pair2.1@));
    if let Value::Cons(_) = &pair2.1 {
        return Err(BuiltinError::BadEqArgCount);
    }
    Ok(Value::Bool(values_eq(&pair.0, &pair2.0)))
}

pub open spec fn spec_not(args: SVal) -> Result<SVal, BuiltinError> {
    match args {
        SVal::Cons(a, rest) => if *rest is Cons {
            Err(BuiltinError::WrongNotArgCount)
        } else {
            Ok(SVal::Bool(!spec_truthy(*a)))
        },
        _ => Err(BuiltinError::NotAnArgList),
    }
}

pub fn not(args: &Value) -> (r: Result<Value, BuiltinError>)
    ensures
        bview(r) == spec_not(args@),
{
    let pair = match args {
        Value::Cons(pair) => pair,
        _ => {
            return Err(BuiltinError::NotAnArgList);
        },
    };
    assert(args@ == scons(pair.0@, pair.1@));
    if let Value::Cons(_) = &pair.1 {
        return Err(BuiltinError::WrongNotArgCount);
    }
    Ok(Value::Bool(!pair.0.truthy()))
}

} // verus!
