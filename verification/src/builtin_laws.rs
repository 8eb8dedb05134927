//! What the built-in procedures, truthiness and printing are for, stated over all inputs
//! by what the results must be, and proved.
use vstd::prelude::*;

use crate::eval::builtins::dispatch::spec_apply_builtin;
use crate::eval::display::{spec_display, SPiece};
use crate::eval::env::BuiltinError;
use crate::eval::num::{
    double_add, double_div, double_eq, double_lt, double_mul, double_rem, double_sub, is_zero, ONE_BITS,
    ZERO_BITS,
};
use crate::eval::value::{scons, slist, spec_truthy, BuiltinFn, SVal};

verus! {

/// The values of a sequence of numbers.
pub open spec fn nums(xs: Seq<u64>) -> Seq<SVal> {
    xs.map_values(|x: u64| SVal::Num(x))
}

/// Each number is less than the next.
pub open spec fn strictly_increasing(xs: Seq<u64>) -> bool {
    forall|i: int| 0 <= i < xs.len() - 1 ==> double_lt(#[trigger] xs[i], xs[i + 1])
}

/// `f` applied from the left: `f(...f(f(acc, xs[0]), xs[1])..., xs[n-1])`.
pub open spec fn fold_left_nums(f: spec_fn(u64, u64) -> u64, acc: u64, xs: Seq<u64>) -> u64
    decreases xs.len(),
{
    if xs.len() == 0 {
        acc
    } else {
        fold_left_nums(f, f(acc, xs[0]), xs.drop_first())
    }
}

proof fn lemma_slist_front(items: Seq<SVal>)
    requires
        items.len() > 0,
    ensures
        slist(items) == scons(items[0], slist(items.drop_first())),
{
    assert(items.subrange(1, items.len() as int) =~= items.drop_first());
}

proof fn lemma_nums_drop_first(xs: Seq<u64>)
    requires
        xs.len() > 0,
    ensures
        nums(xs).drop_first() == nums(xs.drop_first()),
        nums(xs)[0] == SVal::Num(xs[0]),
{
    assert(nums(xs).drop_first() =~= nums(xs.drop_first()));
}

proof fn lemma_lt_from(prev: u64, pass: bool, xs: Seq<u64>)
    ensures
        crate::eval::builtins::math::spec_lt_from(prev, pass, slist(nums(xs))) == Ok::<
            SVal,
            BuiltinError,
        >(SVal::Bool(pass && strictly_increasing(seq![prev] + xs))),
    decreases xs.len(),
{
    let whole = seq![prev] + xs;
    if xs.len() == 0 {
        assert(slist(nums(xs)) == SVal::Nil);
        assert(strictly_increasing(whole));
    } else {
        lemma_nums_drop_first(xs);
        lemma_slist_front(nums(xs));
        let rest = xs.drop_first();
        lemma_lt_from(xs[0], pass && double_lt(prev, xs[0]), rest);
        let tail = seq![xs[0]] + rest;
        assert(tail =~= xs);
        assert(whole[0] == prev && whole[1] == xs[0]);
        if strictly_increasing(whole) {
            assert(double_lt(whole[0], whole[1]));
            assert forall|i: int| 0 <= i < tail.len() - 1 implies double_lt(
                #[trigger] tail[i],
                tail[i + 1],
            ) by {
                assert(tail[i] == whole[i + 1] && tail[i + 1] == whole[i + 2]);
            }
        }
        if double_lt(prev, xs[0]) && strictly_increasing(tail) {
            assert forall|i: int| 0 <= i < whole.len() - 1 implies double_lt(
                #[trigger] whole[i],
                whole[i + 1],
            ) by {
                if i > 0 {
                    assert(whole[i] == tail[i - 1] && whole[i + 1] == tail[i]);
                }
            }
        }
    }
}

/// `(< x0 x1 ...)` on numbers is `#t` exactly when each number is less than the next: a
/// single pair out of order anywhere makes it `#f`.
pub proof fn law_lt_is_a_chain(xs: Seq<u64>)
    requires
        xs.len() > 0,
    ensures
        spec_apply_builtin(BuiltinFn::Lt, slist(nums(xs))) == Ok::<SVal, BuiltinError>(
            SVal::Bool(strictly_increasing(xs)),
        ),
        xs.len() >= 2 && !double_lt(xs[0], xs[1]) ==> spec_apply_builtin(
            BuiltinFn::Lt,
            slist(nums(xs)),
        ) == Ok::<SVal, BuiltinError>(SVal::Bool(false)),
{
    lemma_nums_drop_first(xs);
    lemma_slist_front(nums(xs));
    lemma_lt_from(xs[0], true, xs.drop_first());
    assert(seq![xs[0]] + xs.drop_first() =~= xs);
}

proof fn lemma_fold(op: crate::eval::builtins::math::ArithOp, f: spec_fn(u64, u64) -> u64, acc: u64, xs: Seq<u64>)
    requires
        forall|a: u64, b: u64| #[trigger] f(a, b) == crate::eval::builtins::math::spec_op(op, a, b),
    ensures
        crate::eval::builtins::math::spec_fold(op, acc, slist(nums(xs))) == Ok::<u64, BuiltinError>(
            fold_left_nums(f, acc, xs),
        ),
    decreases xs.len(),
{
    if xs.len() == 0 {
        assert(slist(nums(xs)) == SVal::Nil);
    } else {
        lemma_nums_drop_first(xs);
        lemma_slist_front(nums(xs));
        assert(f(acc, xs[0]) == crate::eval::builtins::math::spec_op(op, acc, xs[0]));
        lemma_fold(op, f, f(acc, xs[0]), xs.drop_first());
    }
}

/// `(+ x...)` adds the numbers from the left, starting at 0; `(* x...)` multiplies them,
/// starting at 1.
pub proof fn law_sum_and_product(xs: Seq<u64>)
    ensures
        spec_apply_builtin(BuiltinFn::Add, slist(nums(xs))) == Ok::<SVal, BuiltinError>(
            SVal::Num(fold_left_nums(|a: u64, b: u64| double_add(a, b), ZERO_BITS, xs)),
        ),
        spec_apply_builtin(BuiltinFn::Mul, slist(nums(xs))) == Ok::<SVal, BuiltinError>(
            SVal::Num(fold_left_nums(|a: u64, b: u64| double_mul(a, b), ONE_BITS, xs)),
        ),
{
    let fa = |a: u64, b: u64| double_add(a, b);
    let fm = |a: u64, b: u64| double_mul(a, b);
    lemma_fold(crate::eval::builtins::math::ArithOp::Add, fa, ZERO_BITS, xs);
    lemma_fold(crate::eval::builtins::math::ArithOp::Mul, fm, ONE_BITS, xs);
    if xs.len() > 0 {
        lemma_nums_drop_first(xs);
        lemma_slist_front(nums(xs));
    }
}

/// `(- x0 x...)` subtracts the rest from the first number, from the left; `(/ x0 x...)`
/// divides it by them.
pub proof fn law_difference_and_quotient(x0: u64, xs: Seq<u64>)
    ensures
        spec_apply_builtin(BuiltinFn::Min, slist(nums(seq![x0] + xs))) == Ok::<
            SVal,
            BuiltinError,
        >(SVal::Num(fold_left_nums(|a: u64, b: u64| double_sub(a, b), x0, xs))),
        spec_apply_builtin(BuiltinFn::Div, slist(nums(seq![x0] + xs))) == Ok::<
            SVal,
            BuiltinError,
        >(SVal::Num(fold_left_nums(|a: u64, b: u64| double_div(a, b), x0, xs))),
{
    let all = seq![x0] + xs;
    lemma_nums_drop_first(all);
    lemma_slist_front(nums(all));
    assert(all.drop_first() =~= xs);
    lemma_fold(crate::eval::builtins::math::ArithOp::Sub, |a: u64, b: u64| double_sub(a, b), x0, xs);
    lemma_fold(crate::eval::builtins::math::ArithOp::Div, |a: u64, b: u64| double_div(a, b), x0, xs);
}

/// `(% a b)` is the remainder of `a` divided by `b`.
pub proof fn law_remainder(a: u64, b: u64)
    ensures
        spec_apply_builtin(BuiltinFn::Modulo, slist(nums(seq![a, b]))) == Ok::<SVal, BuiltinError>(
            SVal::Num(double_rem(a, b)),
        ),
{
    let s = seq![a, b];
    lemma_nums_drop_first(s);
    lemma_slist_front(nums(s));
    assert(s.drop_first() =~= seq![b]);
    lemma_nums_drop_first(seq![b]);
    lemma_slist_front(nums(seq![b]));
    assert(seq![b].drop_first() =~= Seq::<u64>::empty());
    assert(slist(nums(Seq::<u64>::empty())) == SVal::Nil);
}

/// Only `nil`, `#f`, the two zeros and the empty string are false in a condition.
pub proof fn law_truthiness(v: SVal)
    ensures
        !spec_truthy(v) <==> (v is Nil || v == SVal::Bool(false) || (v matches SVal::Num(n)
            && is_zero(n)) || v == SVal::Str(Seq::empty())),
        spec_truthy(SVal::Str(Seq::empty())) == false,
{
    match v {
        SVal::Str(s) => {
            if s.len() == 0 {
                assert(s =~= Seq::<char>::empty());
            }
        },
        _ => {},
    }
}

proof fn lemma_all_truthy(xs: Seq<SVal>)
    ensures
        crate::eval::builtins::boolean::spec_all_truthy(slist(xs)) == (forall|i: int|
            0 <= i < xs.len() ==> spec_truthy(#[trigger] xs[i])),
        crate::eval::builtins::boolean::spec_any_truthy(slist(xs)) == (exists|i: int|
            0 <= i < xs.len() && spec_truthy(#[trigger] xs[i])),
    decreases xs.len(),
{
    if xs.len() > 0 {
        lemma_slist_front(xs);
        let r = xs.drop_first();
        lemma_all_truthy(r);
        if forall|i: int| 0 <= i < r.len() ==> spec_truthy(#[trigger] r[i]) {
            if spec_truthy(xs[0]) {
                assert forall|i: int| 0 <= i < xs.len() implies spec_truthy(#[trigger] xs[i]) by {
                    if i > 0 {
                        assert(xs[i] == r[i - 1]);
                    }
                }
            }
        } else {
            let j = choose|j: int| 0 <= j < r.len() && !spec_truthy(#[trigger] r[j]);
            assert(xs[j + 1] == r[j]);
        }
        if exists|i: int| 0 <= i < r.len() && spec_truthy(#[trigger] r[i]) {
            let j = choose|j: int| 0 <= j < r.len() && spec_truthy(#[trigger] r[j]);
            assert(xs[j + 1] == r[j]);
        } else if !spec_truthy(xs[0]) {
            assert forall|i: int| 0 <= i < xs.len() implies !spec_truthy(#[trigger] xs[i]) by {
                if i > 0 {
                    assert(xs[i] == r[i - 1]);
                }
            }
        }
    }
}

/// `(&& x...)` is `#t` exactly when every argument is true; `(|| x...)` exactly when some
/// argument is; `(not x)` is the opposite of `x`'s truth.
pub proof fn law_and_or_not(xs: Seq<SVal>, x: SVal)
    ensures
        spec_apply_builtin(BuiltinFn::And, slist(xs)) == Ok::<SVal, BuiltinError>(
            SVal::Bool(forall|i: int| 0 <= i < xs.len() ==> spec_truthy(#[trigger] xs[i])),
        ),
        spec_apply_builtin(BuiltinFn::Or, slist(xs)) == Ok::<SVal, BuiltinError>(
            SVal::Bool(exists|i: int| 0 <= i < xs.len() && spec_truthy(#[trigger] xs[i])),
        ),
        spec_apply_builtin(BuiltinFn::Not, slist(seq![x])) == Ok::<SVal, BuiltinError>(
            SVal::Bool(!spec_truthy(x)),
        ),
{
    lemma_all_truthy(xs);
    lemma_slist_front(seq![x]);
    assert(seq![x].drop_first() =~= Seq::<SVal>::empty());
}

/// The type predicates on one value: `number?`, `symbol?`, `string?`, `char?` and `pair?`
/// tell the kind of the value, `null?` is true of `nil` alone and `atom?` of everything but
/// a pair. So a string is no symbol and a symbol no string.
pub proof fn law_type_predicates(v: SVal)
    ensures
        spec_apply_builtin(BuiltinFn::IsNumber, slist(seq![v])) == Ok::<SVal, BuiltinError>(
            SVal::Bool(v is Num),
        ),
        spec_apply_builtin(BuiltinFn::IsSymbol, slist(seq![v])) == Ok::<SVal, BuiltinError>(
            SVal::Bool(v is Symbol),
        ),
        spec_apply_builtin(BuiltinFn::IsString, slist(seq![v])) == Ok::<SVal, BuiltinError>(
            SVal::Bool(v is Str),
        ),
        spec_apply_builtin(BuiltinFn::IsChar, slist(seq![v])) == Ok::<SVal, BuiltinError>(
            SVal::Bool(v is Char),
        ),
        spec_apply_builtin(BuiltinFn::IsPair, slist(seq![v])) == Ok::<SVal, BuiltinError>(
            SVal::Bool(v is Cons),
        ),
        spec_apply_builtin(BuiltinFn::IsNull, slist(seq![v])) == Ok::<SVal, BuiltinError>(
            SVal::Bool(v is Nil),
        ),
        spec_apply_builtin(BuiltinFn::IsAtom, slist(seq![v])) == Ok::<SVal, BuiltinError>(
            SVal::Bool(!(v is Cons)),
        ),
{
    lemma_slist_front(seq![v]);
    assert(seq![v].drop_first() =~= Seq::<SVal>::empty());
}

/// A boolean prints as `#t` when true and `#f` when false, so the two print differently.
pub proof fn law_booleans_print(b: bool)
    ensures
        spec_display(SVal::Bool(b)) == seq![SPiece::Text(if b { "#t"@ } else { "#f"@ })],
        spec_display(SVal::Bool(true)) != spec_display(SVal::Bool(false)),
{
    reveal_strlit("#t");
    reveal_strlit("#f");
    assert(spec_display(SVal::Bool(true))[0] != spec_display(SVal::Bool(false))[0]) by {
        assert("#t"@[1] != "#f"@[1]);
    }
}

/// `=` is symmetric; on numbers it is IEEE equality (no NaN equals anything, the zeros are
/// equal); strings and symbols are equal when their texts are; `nil` equals only `nil`.
pub proof fn law_equality(a: SVal, b: SVal, x: u64, y: u64, s: Seq<char>, t: Seq<char>)
    ensures
        spec_apply_builtin(BuiltinFn::Eq, slist(seq![a, b])) == spec_apply_builtin(
            BuiltinFn::Eq,
            slist(seq![b, a]),
        ),
        spec_apply_builtin(BuiltinFn::Eq, slist(seq![SVal::Num(x), SVal::Num(y)])) == Ok::<
            SVal,
            BuiltinError,
        >(SVal::Bool(double_eq(x, y))),
        spec_apply_builtin(BuiltinFn::Eq, slist(seq![SVal::Str(s), SVal::Str(t)])) == Ok::<
            SVal,
            BuiltinError,
        >(SVal::Bool(s == t)),
        spec_apply_builtin(BuiltinFn::Eq, slist(seq![SVal::Symbol(s), SVal::Str(t)])) == Ok::<
            SVal,
            BuiltinError,
        >(SVal::Bool(s == t)),
        spec_apply_builtin(BuiltinFn::Eq, slist(seq![SVal::Nil, b])) == Ok::<SVal, BuiltinError>(
            SVal::Bool(b is Nil),
        ),
{
    lemma_two(a, b);
    lemma_two(b, a);
    lemma_two(SVal::Num(x), SVal::Num(y));
    lemma_two(SVal::Str(s), SVal::Str(t));
    lemma_two(SVal::Symbol(s), SVal::Str(t));
    lemma_two(SVal::Nil, b);
}

proof fn lemma_two(a: SVal, b: SVal)
    ensures
        slist(seq![a, b]) == scons(a, scons(b, SVal::Nil)),
{
    lemma_slist_front(seq![a, b]);
    assert(seq![a, b].drop_first() =~= seq![b]);
    lemma_slist_front(seq![b]);
    assert(seq![b].drop_first() =~= Seq::<SVal>::empty());
}

proof fn lemma_append_items(xs: Seq<SVal>, tail: SVal)
    ensures
        crate::eval::builtins::list::spec_append_items(xs, tail) == append_to(xs, tail),
    decreases xs.len(),
{
    if xs.len() > 0 {
        assert(xs.subrange(1, xs.len() as int) =~= xs.drop_first());
        lemma_append_items(xs.drop_first(), tail);
    }
}

/// The items `xs` put in front of `tail`.
pub open spec fn append_to(xs: Seq<SVal>, tail: SVal) -> SVal
    decreases xs.len(),
{
    if xs.len() == 0 {
        tail
    } else {
        scons(xs[0], append_to(xs.drop_first(), tail))
    }
}

proof fn lemma_append_lists(xs: Seq<SVal>, ys: Seq<SVal>)
    ensures
        append_to(xs, slist(ys)) == slist(xs + ys),
    decreases xs.len(),
{
    if xs.len() == 0 {
        assert(xs + ys =~= ys);
    } else {
        lemma_append_lists(xs.drop_first(), ys);
        assert((xs + ys).drop_first() =~= xs.drop_first() + ys);
        lemma_slist_front(xs + ys);
    }
}

/// `(list x...)` is the list of its arguments, and `(append l1 l2)` of two lists is the
/// list of the items of `l1` followed by those of `l2`.
pub proof fn law_list_and_append(xs: Seq<SVal>, ys: Seq<SVal>)
    ensures
        spec_apply_builtin(BuiltinFn::List, slist(xs)) == Ok::<SVal, BuiltinError>(slist(xs)),
        spec_apply_builtin(BuiltinFn::Append, slist(seq![slist(xs), slist(ys)])) == Ok::<
            SVal,
            BuiltinError,
        >(slist(xs + ys)),
{
    lemma_two(slist(xs), slist(ys));
    crate::laws::law_list_items_of_list(xs);
    lemma_append_items(xs, slist(ys));
    lemma_append_lists(xs, ys);
}

/// The pieces of a list's items after the first, each after a space.
pub open spec fn spaced_rest(xs: Seq<SVal>) -> Seq<SPiece>
    decreases xs.len(),
{
    if xs.len() == 0 {
        Seq::empty()
    } else {
        seq![SPiece::Text(" "@)] + spec_display(xs[0]) + spaced_rest(xs.drop_first())
    }
}

proof fn lemma_display_tail(xs: Seq<SVal>)
    ensures
        crate::eval::display::display_tail(slist(xs)) == spaced_rest(xs),
    decreases xs.len(),
{
    if xs.len() > 0 {
        lemma_slist_front(xs);
        lemma_display_tail(xs.drop_first());
    } else {
        assert(slist(xs) == SVal::Nil);
    }
}

/// A number prints as itself (its decimal form is left to the caller), a symbol as `:` and
/// its name, a string as its text, and a non-empty list as `'(`, its items' printed forms
/// separated by spaces, and `)`.
pub proof fn law_printed_forms(n: u64, name: Seq<char>, s: Seq<char>, xs: Seq<SVal>)
    requires
        xs.len() > 0,
    ensures
        spec_display(SVal::Num(n)) == seq![SPiece::Num(n)],
        spec_display(SVal::Symbol(name)) == seq![SPiece::Text(":"@ + name)],
        spec_display(SVal::Str(s)) == seq![SPiece::Text(s)],
        spec_display(SVal::Nil) == seq![SPiece::Text("nil"@)],
        spec_display(slist(xs)) == seq![SPiece::Text("'("@)] + spec_display(xs[0]) + spaced_rest(
            xs.drop_first(),
        ) + seq![SPiece::Text(")"@)],
{
    lemma_slist_front(xs);
    lemma_display_tail(xs.drop_first());
}

proof fn lemma_chars_of_values(s: Seq<char>)
    requires
        forall|i: int| 0 <= i < s.len() ==> crate::eval::builtins::string::latin1(#[trigger] s[i]),
    ensures
        crate::eval::builtins::string::chars_of_values(
            s.map_values(|c: char| crate::eval::builtins::string::char_value(c)),
        ) == Some(s),
    decreases s.len(),
{
    let m = s.map_values(|c: char| crate::eval::builtins::string::char_value(c));
    if s.len() > 0 {
        let d = s.drop_last();
        assert(m.drop_last() =~= d.map_values(|c: char| crate::eval::builtins::string::char_value(c)));
        lemma_chars_of_values(d);
        let c = s.last();
        assert(crate::eval::builtins::string::latin1(c));
        let k = c as u32;
        assert(k <= 255);
        assert((k as u8) as u32 == k) by (bit_vector)
            requires
                k <= 255,
        ;
        vstd::utf8::char_u32_cast(c, k);
        assert(k as char == c);
        assert(((k as u8) as char) == k as char);
        assert(((k as u8) as char) == c);
        assert(d.push(c) =~= s);
    } else {
        assert(m.len() == 0);
    }
}

/// `list->string` undoes `string->list`: a string whose chars all fit a char value comes
/// back as it was. `(string-append a b)` is `a` followed by `b`.
pub proof fn law_strings(s: Seq<char>, a: Seq<char>, b: Seq<char>)
    requires
        forall|i: int| 0 <= i < s.len() ==> crate::eval::builtins::string::latin1(#[trigger] s[i]),
    ensures
        ({
            let l = spec_apply_builtin(BuiltinFn::StringToList, slist(seq![SVal::Str(s)]));
            &&& l is Ok
            &&& spec_apply_builtin(BuiltinFn::ListToString, slist(seq![l.unwrap()])) == Ok::<
                SVal,
                BuiltinError,
            >(SVal::Str(s))
        }),
        spec_apply_builtin(BuiltinFn::StringAppend, slist(seq![SVal::Str(a), SVal::Str(b)]))
            == Ok::<SVal, BuiltinError>(SVal::Str(a + b)),
{
    lemma_slist_front(seq![SVal::Str(s)]);
    assert(seq![SVal::Str(s)].drop_first() =~= Seq::<SVal>::empty());
    let m = s.map_values(|c: char| crate::eval::builtins::string::char_value(c));
    let l = slist(m);
    lemma_slist_front(seq![l]);
    assert(seq![l].drop_first() =~= Seq::<SVal>::empty());
    crate::laws::law_list_items_of_list(m);
    lemma_chars_of_values(s);
    lemma_two(SVal::Str(a), SVal::Str(b));
    crate::laws::law_list_items_of_list(seq![SVal::Str(a), SVal::Str(b)]);
    let items = seq![SVal::Str(a), SVal::Str(b)];
    assert(items.drop_last() =~= seq![SVal::Str(a)]);
    assert(seq![SVal::Str(a)].drop_last() =~= Seq::<SVal>::empty());
    assert(Seq::<char>::empty() + a =~= a);
    assert(crate::eval::builtins::string::concat_strings(Seq::<SVal>::empty()) == Some(
        Seq::<char>::empty(),
    ));
    assert(crate::eval::builtins::string::concat_strings(seq![SVal::Str(a)]) == Some(a));
    assert(crate::eval::builtins::string::concat_strings(items) == Some(a + b));
}

/// `getline` gives the input up to its first newline and leaves what follows it; `getchar`
/// gives the first input char and leaves the rest; `(print v)` gives `nil` and writes the
/// printed form of `v` and a newline after what was written before.
pub proof fn law_input_output(
    st: crate::eval::env::SEnv,
    line: Seq<char>,
    rest: Seq<char>,
    c: char,
    v: SVal,
)
    requires
        forall|i: int| 0 <= i < line.len() ==> line[i] != '\n',
        crate::eval::builtins::string::latin1(c),
    ensures
        crate::eval::env::spec_apply_io(
            BuiltinFn::GetLine,
            SVal::Nil,
            crate::eval::env::SEnv { input: line + seq!['\n'] + rest, ..st },
        ) == (Ok::<SVal, crate::eval::error::SError>(SVal::Str(line)), crate::eval::env::SEnv {
            input: rest,
            ..st
        }),
        crate::eval::env::spec_apply_io(
            BuiltinFn::GetChar,
            SVal::Nil,
            crate::eval::env::SEnv { input: seq![c] + rest, ..st },
        ) == (Ok::<SVal, crate::eval::error::SError>(SVal::Char((c as u32) as u8)),
        crate::eval::env::SEnv { input: rest, ..st }),
        crate::eval::env::spec_apply_io(BuiltinFn::Print, slist(seq![v]), st) == (Ok::<
            SVal,
            crate::eval::error::SError,
        >(SVal::Nil), crate::eval::env::SEnv {
            output: st.output + spec_display(v) + seq![SPiece::Text("\n"@)],
            ..st
        }),
{
    let inp = line + seq!['\n'] + rest;
    assert forall|j: int| 0 <= j < line.len() implies inp[j] != '\n' by {
        assert(inp[j] == line[j]);
    }
    assert(inp[line.len() as int] == '\n');
    crate::eval::env::lemma_newline_at(inp, line.len() as int);
    assert(inp.take(line.len() as int) =~= line);
    assert(inp.skip((line.len() + 1) as int) =~= rest);
    assert((seq![c] + rest).drop_first() =~= rest);
    lemma_slist_front(seq![v]);
    assert(seq![v].drop_first() =~= Seq::<SVal>::empty());
    crate::laws::law_list_items_of_list(seq![v]);
}

} // verus!
