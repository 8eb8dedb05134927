//! Applying a built-in to its evaluated arguments.
use vstd::prelude::*;

use crate::eval::builtins::boolean::{and, eq, not, spec_all_truthy, spec_any_truthy, spec_eq, spec_not, val_or};
use crate::eval::builtins::list::{
    append, car, cdr, cons, list, make_char, spec_append, spec_car, spec_cdr, spec_cons,
    spec_make_char,
};
use crate::eval::builtins::math::{
    div, lt, min, modulo, spec_add, spec_div, spec_lt, spec_min, spec_modulo, spec_mul,
};
use crate::eval::builtins::predicate::{
    is_atom, is_char, is_null, is_number, is_pair, is_string, is_symbol, spec_predicate, PredKind,
};
use crate::eval::builtins::string::{
    list_to_string, spec_list_to_string, spec_string_append, spec_string_length,
    spec_string_ref, spec_string_to_list, spec_string_to_num, spec_substring, string_append,
    string_length, string_ref, string_to_list, string_to_num, substring,
};
use crate::eval::env::BuiltinError;
use crate::eval::value::{bview, BuiltinFn, SVal, Value};

verus! {

/// What a built-in gives for the list of its evaluated arguments.
pub open spec fn spec_apply_builtin(f: BuiltinFn, args: SVal) -> Result<SVal, BuiltinError> {
    match f {
        BuiltinFn::Add => spec_add(args),
        BuiltinFn::Mul => spec_mul(args),
        BuiltinFn::Min => spec_min(args),
        BuiltinFn::Div => spec_div(args),
        BuiltinFn::Lt => spec_lt(args),
        BuiltinFn::Modulo => spec_modulo(args),
        BuiltinFn::Eq => spec_eq(args),
        BuiltinFn::And => Ok(SVal::Bool(spec_all_truthy(args))),
        BuiltinFn::Or => Ok(SVal::Bool(spec_any_truthy(args))),
        BuiltinFn::Not => spec_not(args),
        BuiltinFn::Cons => spec_cons(args),
        BuiltinFn::Car => spec_car(args),
        BuiltinFn::Cdr => spec_cdr(args),
        BuiltinFn::List => Ok(args),
        BuiltinFn::Append => spec_append(args),
        BuiltinFn::IsAtom => spec_predicate(PredKind::Atom, args),
        BuiltinFn::IsNumber => spec_predicate(PredKind::Number, args),
        BuiltinFn::IsSymbol => spec_predicate(PredKind::Symbol, args),
        BuiltinFn::IsString => spec_predicate(PredKind::Str, args),
        BuiltinFn::IsChar => spec_predicate(PredKind::Char, args),
        BuiltinFn::IsNull => spec_predicate(PredKind::Null, args),
        BuiltinFn::IsPair => spec_predicate(PredKind::Pair, args),
        BuiltinFn::MakeChar => spec_make_char(args),
        BuiltinFn::StringLength => spec_string_length(args),
        BuiltinFn::StringRef => spec_string_ref(args),
        BuiltinFn::Substring => spec_substring(args),
        BuiltinFn::StringAppend => spec_string_append(args),
        BuiltinFn::StringToList => spec_string_to_list(args),
        BuiltinFn::StringToNum => spec_string_to_num(args),
        BuiltinFn::ListToString => spec_list_to_string(args),
        BuiltinFn::Print | BuiltinFn::GetChar | BuiltinFn::GetLine => Ok(SVal::Nil),
    }
}

/// The built-ins that read input or write output; they act on the store, and
/// `spec_apply_builtin` leaves them out.
pub open spec fn is_io(f: BuiltinFn) -> bool {
    f == BuiltinFn::Print || f == BuiltinFn::GetChar || f == BuiltinFn::GetLine
}

/// Applies the built-in `f` to the list of its evaluated arguments.
pub fn apply_builtin(f: BuiltinFn, args: &Value) -> (r: Result<Value, BuiltinError>)
    requires
        !is_io(f),
    ensures
        bview(r) == spec_apply_builtin(f, args@),
{
    match f {
        BuiltinFn::Add => crate::eval::builtins::math::add(args),
        BuiltinFn::Mul => crate::eval::builtins::math::mul(args),
        BuiltinFn::Min => min(args),
        BuiltinFn::Div => div(args),
        BuiltinFn::Lt => lt(args),
        BuiltinFn::Modulo => modulo(args),
        BuiltinFn::Eq => eq(args),
        BuiltinFn::And => and(args),
        BuiltinFn::Or => val_or(args),
        BuiltinFn::Not => not(args),
        BuiltinFn::Cons => cons(args),
        BuiltinFn::Car => car(args),
        BuiltinFn::Cdr => cdr(args),
        BuiltinFn::List => list(args),
        BuiltinFn::Append => append(args),
        BuiltinFn::IsAtom => is_atom(args),
        BuiltinFn::IsNumber => is_number(args),
        BuiltinFn::IsSymbol => is_symbol(args),
        BuiltinFn::IsString => is_string(args),
        BuiltinFn::IsChar => is_char(args),
        BuiltinFn::IsNull => is_null(args),
        BuiltinFn::IsPair => is_pair(args),
        BuiltinFn::MakeChar => make_char(args),
        BuiltinFn::StringLength => string_length(args),
        BuiltinFn::StringRef => string_ref(args),
        BuiltinFn::Substring => substring(args),
        BuiltinFn::StringAppend => string_append(args),
        BuiltinFn::StringToList => string_to_list(args),
        BuiltinFn::StringToNum => string_to_num(args),
        BuiltinFn::ListToString => list_to_string(args),
        BuiltinFn::Print | BuiltinFn::GetChar | BuiltinFn::GetLine => Ok(Value::Nil),
    }
}

} // verus!
