//! List built-ins: `cons`, `car`, `cdr`, `list`, `append`; and `char`.
use vstd::prelude::*;

use crate::eval::builtins::boolean::one_byte;
use crate::eval::env::BuiltinError;
use crate::eval::num::{byte_value, num_to_byte};
use crate::eval::value::{
    bview, cons as make_cons, is_proper_list, list_end, list_items, scons, SVal, Value,
};
use crate::text::chars_of;

verus! {

/// Exactly two arguments, `a` and `b`.
pub open spec fn two_args(args: SVal) -> Option<(SVal, SVal)> {
    match args {
        SVal::Cons(a, rest) => match *rest {
            SVal::Cons(b, rest2) => if *rest2 is Cons {
                None
            } else {
                Some((*a, *b))
            },
            _ => None,
        },
        _ => None,
    }
}

/// Exactly one argument.
pub open spec fn one_arg(args: SVal) -> Option<SVal> {
    match args {
        SVal::Cons(a, rest) => if *rest is Cons {
            None
        } else {
            Some(*a)
        },
        _ => None,
    }
}

pub(crate) fn get_two(args: &Value) -> (r: Option<(&Value, &Value)>)
    ensures
        match (r, two_args(args@)) {
            (Some((a, b)), Some((x, y))) => a@ == x && b@ == y,
            (None, None) => true,
            _ => false,
        },
{
    match args {
        Value::Cons(pair) => {
            assert(args@ == scons(pair.0@, pair.1@));
            match &pair.1 {
                Value::Cons(pair2) => {
                    assert(pair.1@ == scons(pair2.0@, pair2.1@));
                    if let Value::Cons(_) = &pair2.1 {
                        None
                    } else {
                        Some((&pair.0, &pair2.0))
                    }
                },
                _ => None,
            }
        },
        _ => None,
    }
}

pub(crate) fn get_one(args: &Value) -> (r: Option<&Value>)
    ensures
        match (r, one_arg(args@)) {
            (Some(a), Some(x)) => a@ == x,
            (None, None) => true,
            _ => false,
        },
{
    match args {
        Value::Cons(pair) => {
            assert(args@ == scons(pair.0@, pair.1@));
            if let Value::Cons(_) = &pair.1 {
                None
            } else {
                Some(&pair.0)
            }
        },
        _ => None,
    }
}

/// The pair of the two arguments.
pub open spec fn spec_cons(args: SVal) -> Result<SVal, BuiltinError> {
    match two_args(args) {
        Some((a, b)) => Ok(scons(a, b)),
        None => Err(BuiltinError::WrongConsArgCount),
    }
}

pub fn cons(args: &Value) -> (r: Result<Value, BuiltinError>)
    ensures
        bview(r) == spec_cons(args@),
{
    match get_two(args) {
        Some((a, b)) => Ok(make_cons(a.dup(), b.dup())),
        None => Err(BuiltinError::WrongConsArgCount),
    }
}

/// The head of the argument list.
pub open spec fn spec_car(args: SVal) -> Result<SVal, BuiltinError> {
    match one_arg(args) {
        Some(SVal::Cons(h, _)) => Ok(*h),
        Some(SVal::Nil) => Err(BuiltinError::CarOnEmptyList),
        Some(_) => Err(BuiltinError::WrongCarArgType),
        None => Err(BuiltinError::WrongCarArgCount),
    }
}

pub fn car(args: &Value) -> (r: Result<Value, BuiltinError>)
    ensures
        bview(r) == spec_car(args@),
{
    match get_one(args) {
        Some(a) => match a {
            Value::Cons(pair) => {
                assert(a@ == scons(pair.0@, pair.1@));
                Ok(pair.0.dup())
            },
            Value::Nil => Err(BuiltinError::CarOnEmptyList),
            _ => Err(BuiltinError::WrongCarArgType),
        },
        None => Err(BuiltinError::WrongCarArgCount),
    }
}

/// The tail of the argument list.
pub open spec fn spec_cdr(args: SVal) -> Result<SVal, BuiltinError> {
    match one_arg(args) {
        Some(SVal::Cons(_, t)) => Ok(*t),
        Some(SVal::Nil) => Err(BuiltinError::CdrOnEmptyList),
        Some(_) => Err(BuiltinError::WrongCdrArgType),
        None => Err(BuiltinError::WrongCdrArgCount),
    }
}

pub fn cdr(args: &Value) -> (r: Result<Value, BuiltinError>)
    ensures
        bview(r) == spec_cdr(args@),
{
    match get_one(args) {
        Some(a) => match a {
            Value::Cons(pair) => {
                assert(a@ == scons(pair.0@, pair.1@));
                Ok(pair.1.dup())
            },
            Value::Nil => Err(BuiltinError::CdrOnEmptyList),
            _ => Err(BuiltinError::WrongCdrArgType),
        },
        None => Err(BuiltinError::WrongCdrArgCount),
    }
}

/// The list of the arguments.
pub fn list(args: &Value) -> (r: Result<Value, BuiltinError>)
    ensures
        bview(r) == Ok::<SVal, BuiltinError>(args@),
{
    Ok(args.dup())
}

/// The items followed by `tail`.
pub open spec fn spec_append_items(items: Seq<SVal>, tail: SVal) -> SVal
    decreases items.len(),
{
    if items.len() == 0 {
        tail
    } else {
        scons(items[0], spec_append_items(items.subrange(1, items.len() as int), tail))
    }
}

/// The items of the first argument, a proper list, followed by the second argument.
pub open spec fn spec_append(args: SVal) -> Result<SVal, BuiltinError> {
    match two_args(args) {
        Some((a, b)) => if is_proper_list(a) {
            Ok(spec_append_items(list_items(a), b))
        } else {
            Err(BuiltinError::AppendNotAList)
        },
        None => Err(BuiltinError::WrongAppendArgCount),
    }
}

/// The items of a list, with the value that ends it.
pub fn items_of(v: &Value) -> (r: (Vec<Value>, Value))
    ensures
        r.0@.map_values(|x: Value| x@) == list_items(v@),
        r.1@ == list_end(v@),
{
    let mut out: Vec<Value> = Vec::new();
    let mut hold: &Value = v;
    loop
        invariant
            out@.map_values(|x: Value| x@) + list_items(hold@) == list_items(v@),
            list_end(hold@) == list_end(v@),
        decreases hold@,
    {
        match hold {
            Value::Cons(pair) => {
                assert(hold@ == scons(pair.0@, pair.1@));
                let ghost before = out@.map_values(|x: Value| x@);
                out.push(pair.0.dup());
                proof {
                    assert(out@.map_values(|x: Value| x@) =~= before.push(pair.0@));
                    assert(before + list_items(hold@) =~= before.push(pair.0@) + list_items(
                        pair.1@,
                    ));
                }
                hold = &pair.1;
            },
            _ => {
                proof {
                    assert(out@.map_values(|x: Value| x@) + list_items(hold@) =~= out@.map_values(
                        |x: Value| x@,
                    ));
                }
                return (out, hold.dup());
            },
        }
    }
}

/// The items followed by `tail`.
pub fn append_items(items: Vec<Value>, tail: Value) -> (r: Value)
    ensures
        r@ == spec_append_items(items@.map_values(|x: Value| x@), tail@),
{
    let ghost s = items@.map_values(|x: Value| x@);
    let mut items = items;
    let mut rv = tail;
    proof {
        assert(s.subrange(s.len() as int, s.len() as int) =~= seq![]);
    }
    while items.len() > 0
        invariant
            items@.len() <= s.len(),
            forall|i: int| 0 <= i < items@.len() ==> #[trigger] items@[i]@ == s[i],
            rv@ == spec_append_items(s.subrange(items@.len() as int, s.len() as int), tail@),
        decreases items@.len(),
    {
        let ghost k = items@.len() - 1;
        let v = items.pop().unwrap();
        proof {
            let here = s.subrange(k, s.len() as int);
            assert(here[0] == s[k]);
            assert(here.subrange(1, here.len() as int) =~= s.subrange(k + 1, s.len() as int));
        }
        rv = make_cons(v, rv);
    }
    proof {
        assert(s.subrange(0, s.len() as int) =~= s);
    }
    rv
}

pub fn append(args: &Value) -> (r: Result<Value, BuiltinError>)
    ensures
        bview(r) == spec_append(args@),
{
    match get_two(args) {
        Some((a, b)) => {
            let (items, end) = items_of(a);
            if matches!(end, Value::Nil) {
                Ok(append_items(items, b.dup()))
            } else {
                Err(BuiltinError::AppendNotAList)
            }
        },
        None => Err(BuiltinError::WrongAppendArgCount),
    }
}

/// The char an integer from 0 to 255, or a one-byte string or symbol, stands for.
pub open spec fn spec_make_char(args: SVal) -> Result<SVal, BuiltinError> {
    match one_arg(args) {
        Some(SVal::Num(b)) => match byte_value(b) {
            Some(k) => Ok(SVal::Char(k)),
            None => Err(BuiltinError::BadCharArg),
        },
        Some(SVal::Str(s)) => if one_byte(s) {
            Ok(SVal::Char(s[0] as u8))
        } else {
            Err(BuiltinError::BadCharArg)
        },
        Some(SVal::Symbol(s)) => if one_byte(s) {
            Ok(SVal::Char(s[0] as u8))
        } else {
            Err(BuiltinError::BadCharArg)
        },
        Some(_) => Err(BuiltinError::BadCharArg),
        None => Err(BuiltinError::WrongCharArgCount),
    }
}

fn text_char(s: &String) -> (r: Result<Value, BuiltinError>)
    ensures
        bview(r) == (if one_byte(s@) {
            Ok::<SVal, BuiltinError>(SVal::Char(s@[0] as u8))
        } else {
            Err(BuiltinError::BadCharArg)
        }),
{
    let cs = chars_of(s.as_str());
    if cs.len() == 1 && (cs[0] as u32) < 128 {
        Ok(Value::Char(cs[0] as u8))
    } else {
        Err(BuiltinError::BadCharArg)
    }
}

pub fn make_char(args: &Value) -> (r: Result<Value, BuiltinError>)
    ensures
        bview(r) == spec_make_char(args@),
{
    match get_one(args) {
        Some(a) => match a {
            Value::Num(b) => match num_to_byte(*b) {
                Some(k) => Ok(Value::Char(k)),
                None => Err(BuiltinError::BadCharArg),
            },
            Value::Str(s) => text_char(s),
            Value::Symbol(s) => text_char(s),
            _ => Err(BuiltinError::BadCharArg),
        },
        None => Err(BuiltinError::WrongCharArgCount),
    }
}

} // verus!
