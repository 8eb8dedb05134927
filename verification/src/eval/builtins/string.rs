//! String built-ins: `string-length`, `string-ref`, `substring`, `string-append`,
//! `string->list`, `string->num` and `list->string`. Chars are values from 0 to 255, so a
//! char of a string above 255 cannot become a char value.
use vstd::prelude::*;
use vstd::string::*;

use crate::eval::builtins::list::{get_one, get_two, items_of, one_arg, two_args};
use crate::eval::display::char_text;
use crate::eval::env::BuiltinError;
use crate::eval::num::{index_value, num_to_index, number_literal, parse_number, uint_bits, uint_to_double};
use crate::eval::value::{bview, list_end, list_items, scons, slist, SVal, Value};
use crate::text::{chars_of, owned};

verus! {

broadcast use vstd::string::group_string_axioms;

/// A char that fits a char value.
pub open spec fn latin1(c: char) -> bool {
    (c as u32) <= 255
}

/// The char value of such a char.
pub open spec fn char_value(c: char) -> SVal {
    SVal::Char((c as u32) as u8)
}

/// Exactly three arguments.
pub open spec fn three_args(args: SVal) -> Option<(SVal, SVal, SVal)> {
    match args {
        SVal::Cons(a, rest) => match two_args(*rest) {
            Some((b, c)) => Some((*a, b, c)),
            None => None,
        },
        _ => None,
    }
}

/// `(string-length s)`: the number of chars of `s`.
pub open spec fn spec_string_length(args: SVal) -> Result<SVal, BuiltinError> {
    match one_arg(args) {
        Some(SVal::Str(s)) => if s.len() <= u64::MAX {
            Ok(SVal::Num(uint_to_double(s.len() as u64)))
        } else {
            Err(BuiltinError::BadStringArg)
        },
        Some(_) => Err(BuiltinError::BadStringArg),
        None => Err(BuiltinError::WrongStringArgCount),
    }
}

/// `(string-ref s k)`: the char of `s` at `k` (from 0).
pub open spec fn spec_string_ref(args: SVal) -> Result<SVal, BuiltinError> {
    match two_args(args) {
        Some((SVal::Str(s), SVal::Num(b))) => match index_value(b) {
            Some(k) => if k < s.len() && latin1(s[k as int]) {
                Ok(char_value(s[k as int]))
            } else {
                Err(BuiltinError::BadStringArg)
            },
            None => Err(BuiltinError::BadStringArg),
        },
        Some(_) => Err(BuiltinError::BadStringArg),
        None => Err(BuiltinError::WrongStringArgCount),
    }
}

/// `(substring s a b)`: the chars of `s` from `a` up to (not including) `b`.
pub open spec fn spec_substring(args: SVal) -> Result<SVal, BuiltinError> {
    match three_args(args) {
        Some((SVal::Str(s), SVal::Num(x), SVal::Num(y))) => match (index_value(x), index_value(y)) {
            (Some(a), Some(b)) => if a <= b && b <= s.len() {
                Ok(SVal::Str(s.subrange(a as int, b as int)))
            } else {
                Err(BuiltinError::BadStringArg)
            },
            _ => Err(BuiltinError::BadStringArg),
        },
        Some(_) => Err(BuiltinError::BadStringArg),
        None => Err(BuiltinError::WrongStringArgCount),
    }
}

/// The strings held by the values, one after the other; `None` if one is not a string.
pub open spec fn concat_strings(items: Seq<SVal>) -> Option<Seq<char>>
    decreases items.len(),
{
    if items.len() == 0 {
        Some(Seq::empty())
    } else {
        match (items.last(), concat_strings(items.drop_last())) {
            (SVal::Str(s), Some(front)) => Some(front + s),
            _ => None,
        }
    }
}

/// `(string-append s...)`: the strings one after the other.
pub open spec fn spec_string_append(args: SVal) -> Result<SVal, BuiltinError> {
    match concat_strings(list_items(args)) {
        Some(s) => Ok(SVal::Str(s)),
        None => Err(BuiltinError::BadStringArg),
    }
}

/// `(string->list s)`: the list of the chars of `s`.
pub open spec fn spec_string_to_list(args: SVal) -> Result<SVal, BuiltinError> {
    match one_arg(args) {
        Some(SVal::Str(s)) => if forall|i: int| 0 <= i < s.len() ==> latin1(#[trigger] s[i]) {
            Ok(slist(s.map_values(|c: char| char_value(c))))
        } else {
            Err(BuiltinError::BadStringArg)
        },
        Some(_) => Err(BuiltinError::BadStringArg),
        None => Err(BuiltinError::WrongStringArgCount),
    }
}

/// `(string->num s)`: the number `s` writes, or `nil` when it writes none.
pub open spec fn spec_string_to_num(args: SVal) -> Result<SVal, BuiltinError> {
    match one_arg(args) {
        Some(SVal::Str(s)) => match number_literal(s) {
            Some(b) => Ok(SVal::Num(b)),
            None => Ok(SVal::Nil),
        },
        Some(_) => Err(BuiltinError::BadStringArg),
        None => Err(BuiltinError::WrongStringArgCount),
    }
}

/// The chars of char values; `None` if one is not a char value.
pub open spec fn chars_of_values(items: Seq<SVal>) -> Option<Seq<char>>
    decreases items.len(),
{
    if items.len() == 0 {
        Some(Seq::empty())
    } else {
        match (items.last(), chars_of_values(items.drop_last())) {
            (SVal::Char(c), Some(front)) => Some(front.push(c as char)),
            _ => None,
        }
    }
}

/// `(list->string l)`: the string of the chars of the list `l`.
pub open spec fn spec_list_to_string(args: SVal) -> Result<SVal, BuiltinError> {
    match one_arg(args) {
        Some(l) => if list_end(l) is Nil {
            match chars_of_values(list_items(l)) {
                Some(s) => Ok(SVal::Str(s)),
                None => Err(BuiltinError::BadStringArg),
            }
        } else {
            Err(BuiltinError::BadStringArg)
        },
        None => Err(BuiltinError::WrongStringArgCount),
    }
}

pub fn string_length(args: &Value) -> (r: Result<Value, BuiltinError>)
    ensures
        bview(r) == spec_string_length(args@),
{
    match get_one(args) {
        Some(Value::Str(s)) => {
            let n = s.as_str().unicode_len();
            Ok(Value::Num(uint_bits(n as u64)))
        },
        Some(_) => Err(BuiltinError::BadStringArg),
        None => Err(BuiltinError::WrongStringArgCount),
    }
}

pub fn string_ref(args: &Value) -> (r: Result<Value, BuiltinError>)
    ensures
        bview(r) == spec_string_ref(args@),
{
    match get_two(args) {
        Some((Value::Str(s), Value::Num(b))) => match num_to_index(*b) {
            Some(k) => {
                let n = s.as_str().unicode_len();
                if k < n as u64 {
                    let c = s.as_str().get_char(k as usize);
                    if (c as u32) <= 255 {
                        Ok(Value::Char((c as u32) as u8))
                    } else {
                        Err(BuiltinError::BadStringArg)
                    }
                } else {
                    Err(BuiltinError::BadStringArg)
                }
            },
            None => Err(BuiltinError::BadStringArg),
        },
        Some(_) => Err(BuiltinError::BadStringArg),
        None => Err(BuiltinError::WrongStringArgCount),
    }
}

fn get_three(args: &Value) -> (r: Option<(&Value, &Value, &Value)>)
    ensures
        match (r, three_args(args@)) {
            (Some((a, b, c)), Some((x, y, z))) => a@ == x && b@ == y && c@ == z,
            (None, None) => true,
            _ => false,
        },
{
    match args {
        Value::Cons(pair) => {
            assert(args@ == scons(pair.0@, pair.1@));
            match get_two(&pair.1) {
                Some((b, c)) => Some((&pair.0, b, c)),
                None => None,
            }
        },
        _ => None,
    }
}

pub fn substring(args: &Value) -> (r: Result<Value, BuiltinError>)
    ensures
        bview(r) == spec_substring(args@),
{
    match get_three(args) {
        Some((Value::Str(s), Value::Num(x), Value::Num(y))) => match (
            num_to_index(*x),
            num_to_index(*y),
        ) {
            (Some(a), Some(b)) => {
                let n = s.as_str().unicode_len();
                if a <= b && b <= n as u64 {
                    Ok(Value::Str(owned(s.as_str().substring_char(a as usize, b as usize))))
                } else {
                    Err(BuiltinError::BadStringArg)
                }
            },
            _ => Err(BuiltinError::BadStringArg),
        },
        Some(_) => Err(BuiltinError::BadStringArg),
        None => Err(BuiltinError::WrongStringArgCount),
    }
}

pub fn string_append(args: &Value) -> (r: Result<Value, BuiltinError>)
    ensures
        bview(r) == spec_string_append(args@),
{
    let (items, _) = items_of(args);
    let ghost iv = list_items(args@);
    let mut out = String::new();
    let mut i: usize = 0;
    proof {
        assert(iv.take(0) =~= Seq::<SVal>::empty());
    }
    while i < items.len()
        invariant
            i <= items@.len(),
            items@.map_values(|x: Value| x@) == iv,
            iv == list_items(args@),
            concat_strings(iv.take(i as int)) == Some(out@),
        decreases items@.len() - i,
    {
        assert(iv[i as int] == items@[i as int]@);
        assert(iv.take(i + 1).drop_last() =~= iv.take(i as int));
        match &items[i] {
            Value::Str(s) => {
                out.append(s.as_str());
            },
            _ => {
                proof {
                    lemma_concat_none(iv, (i + 1) as nat);
                }
                return Err(BuiltinError::BadStringArg);
            },
        }
        i = i + 1;
    }
    assert(iv.take(iv.len() as int) =~= iv);
    Ok(Value::Str(out))
}

/// Once a prefix holds a non-string, so does every longer prefix.
proof fn lemma_concat_none(iv: Seq<SVal>, k: nat)
    requires
        k <= iv.len(),
        concat_strings(iv.take(k as int)) is None,
    ensures
        concat_strings(iv) is None,
    decreases iv.len() - k,
{
    if k < iv.len() {
        assert(iv.take((k + 1) as int).drop_last() =~= iv.take(k as int));
        lemma_concat_none(iv, k + 1);
    } else {
        assert(iv.take(k as int) =~= iv);
    }
}

pub fn string_to_list(args: &Value) -> (r: Result<Value, BuiltinError>)
    ensures
        bview(r) == spec_string_to_list(args@),
{
    match get_one(args) {
        Some(Value::Str(s)) => {
            let chars = chars_of(s.as_str());
            let ghost sv = s@;
            let mut vals: Vec<Value> = Vec::new();
            let mut i: usize = 0;
            while i < chars.len()
                invariant
                    chars@ == sv,
                    one_arg(args@) == Some(SVal::Str(sv)),
                    i <= chars@.len(),
                    vals@.len() == i,
                    forall|j: int| 0 <= j < i ==> latin1(#[trigger] sv[j]),
                    forall|j: int| 0 <= j < i ==> (#[trigger] vals@[j])@ == char_value(sv[j]),
                decreases chars@.len() - i,
            {
                let c = chars[i];
                if (c as u32) > 255 {
                    assert(!latin1(sv[i as int]));
                    return Err(BuiltinError::BadStringArg);
                }
                vals.push(Value::Char((c as u32) as u8));
                i = i + 1;
            }
            proof {
                assert(vals@.map_values(|v: Value| v@) =~= sv.map_values(|c: char| char_value(c)));
            }
            Ok(Value::to_cons_list(vals))
        },
        Some(_) => Err(BuiltinError::BadStringArg),
        None => Err(BuiltinError::WrongStringArgCount),
    }
}

pub fn string_to_num(args: &Value) -> (r: Result<Value, BuiltinError>)
    ensures
        bview(r) == spec_string_to_num(args@),
{
    match get_one(args) {
        Some(Value::Str(s)) => match parse_number(s.as_str()) {
            Some(b) => Ok(Value::Num(b)),
            None => Ok(Value::Nil),
        },
        Some(_) => Err(BuiltinError::BadStringArg),
        None => Err(BuiltinError::WrongStringArgCount),
    }
}

pub fn list_to_string(args: &Value) -> (r: Result<Value, BuiltinError>)
    ensures
        bview(r) == spec_list_to_string(args@),
{
    match get_one(args) {
        Some(l) => {
            let (items, end) = items_of(l);
            if !matches!(end, Value::Nil) {
                return Err(BuiltinError::BadStringArg);
            }
            let ghost iv = list_items(l@);
            let mut out = String::new();
            let mut i: usize = 0;
            proof {
                assert(iv.take(0) =~= Seq::<SVal>::empty());
            }
            while i < items.len()
                invariant
                    i <= items@.len(),
                    items@.map_values(|x: Value| x@) == iv,
                    iv == list_items(l@),
                    one_arg(args@) == Some(l@),
                    list_end(l@) is Nil,
                    chars_of_values(iv.take(i as int)) == Some(out@),
                decreases items@.len() - i,
            {
                assert(iv[i as int] == items@[i as int]@);
                assert(iv.take(i + 1).drop_last() =~= iv.take(i as int));
                match &items[i] {
                    Value::Char(c) => {
                        out.append(char_text(*c as char).as_str());
                    },
                    _ => {
                        proof {
                            lemma_chars_none(iv, (i + 1) as nat);
                        }
                        return Err(BuiltinError::BadStringArg);
                    },
                }
                i = i + 1;
            }
            assert(iv.take(iv.len() as int) =~= iv);
            Ok(Value::Str(out))
        },
        None => Err(BuiltinError::WrongStringArgCount),
    }
}

/// Once a prefix holds a non-char, so does every longer prefix.
proof fn lemma_chars_none(iv: Seq<SVal>, k: nat)
    requires
        k <= iv.len(),
        chars_of_values(iv.take(k as int)) is None,
    ensures
        chars_of_values(iv) is None,
    decreases iv.len() - k,
{
    if k < iv.len() {
        assert(iv.take((k + 1) as int).drop_last() =~= iv.take(k as int));
        lemma_chars_none(iv, k + 1);
    } else {
        assert(iv.take(k as int) =~= iv);
    }
}

} // verus!
