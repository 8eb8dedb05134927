//! Lowering: from parsed expressions to values. Lists become cons lists; atoms become
//! numbers, special-form markers, `nil`, booleans, strings or symbols.
use vstd::prelude::*;
use vstd::string::*;

use crate::eval::num::{number_literal, parse_number};
use crate::eval::value::{cons, form_of, scons, Form, SVal, Value};
use crate::parser::{exprs_view, lemma_exprs_view, Expr, SExpr};
use crate::text::{chars_of, owned, str_eq};

verus! {

broadcast use vstd::string::group_string_axioms;

/// The atom made of a single `"`, which no value stands for.
pub open spec fn lone_quote(s: Seq<char>) -> bool {
    s.len() == 1 && s[0] == '"'
}

/// The value an atom stands for.
pub open spec fn spec_classify(atom: Seq<char>) -> SVal {
    match number_literal(atom) {
        Some(b) => SVal::Num(b),
        None => match form_of(atom) {
            Some(f) => SVal::Form(f),
            None => if atom == "nil"@ {
                SVal::Nil
            } else if atom == "#t"@ {
                SVal::Bool(true)
            } else if atom == "#f"@ {
                SVal::Bool(false)
            } else if atom.len() >= 2 && atom[0] == '"' && atom[atom.len() - 1] == '"' {
                SVal::Str(atom.subrange(1, atom.len() - 1))
            } else {
                SVal::Symbol(atom)
            },
        },
    }
}

/// The value an expression stands for.
pub open spec fn spec_lower(e: SExpr) -> SVal
    decreases e,
{
    match e {
        SExpr::Atom(s, _, _) => spec_classify(s),
        SExpr::List(items, _, _) => spec_lower_list(items),
    }
}

/// The list of the values of the given expressions.
pub open spec fn spec_lower_list(items: Seq<SExpr>) -> SVal
    decreases items,
{
    if items.len() == 0 {
        SVal::Nil
    } else {
        scons(spec_lower(items[0]), spec_lower_list(items.subrange(1, items.len() as int)))
    }
}

/// No atom of the expression is a lone `"`.
pub open spec fn no_lone_quote(e: SExpr) -> bool
    decreases e,
{
    match e {
        SExpr::Atom(s, _, _) => !lone_quote(s),
        SExpr::List(items, _, _) => no_lone_quote_list(items),
    }
}

pub open spec fn no_lone_quote_list(items: Seq<SExpr>) -> bool
    decreases items,
{
    if items.len() == 0 {
        true
    } else {
        no_lone_quote(items[0]) && no_lone_quote_list(items.subrange(1, items.len() as int))
    }
}

/// A list of expressions is free of lone quotes when each of its items is.
proof fn lemma_no_lone_quote_items(items: Seq<SExpr>)
    ensures
        no_lone_quote_list(items) <==> forall|i: int|
            0 <= i < items.len() ==> no_lone_quote(#[trigger] items[i]),
    decreases items.len(),
{
    if items.len() > 0 {
        let rest = items.subrange(1, items.len() as int);
        lemma_no_lone_quote_items(rest);
        if no_lone_quote(items[0]) && no_lone_quote_list(rest) {
            assert forall|i: int| 0 <= i < items.len() implies no_lone_quote(
                #[trigger] items[i],
            ) by {
                if i > 0 {
                    assert(items[i] == rest[i - 1]);
                }
            }
        }
        if forall|i: int| 0 <= i < items.len() ==> no_lone_quote(#[trigger] items[i]) {
            assert forall|i: int| 0 <= i < rest.len() implies no_lone_quote(
                #[trigger] rest[i],
            ) by {
                assert(rest[i] == items[i + 1]);
            }
        }
    }
}

/// Whether no atom of the expression is a lone `"`: the expressions that `lower` takes.
pub fn lone_quote_free(ast: &Expr) -> (r: bool)
    ensures
        r == no_lone_quote(ast@),
    decreases ast,
{
    match ast {
        Expr::Atom(atom, _) => {
            let chars = chars_of(atom);
            !(chars.len() == 1 && chars[0] == '"')
        },
        Expr::List(list, sp) => {
            let ghost items = exprs_view(list@);
            proof {
                lemma_exprs_view(list@);
                lemma_no_lone_quote_items(items);
            }
            let mut i: usize = 0;
            while i < list.len()
                invariant
                    i <= list@.len(),
                    *ast == Expr::List(*list, *sp),
                    items == list@.map_values(|e: Expr| e@),
                    items == exprs_view(list@),
                    no_lone_quote_list(items) <==> forall|j: int|
                        0 <= j < items.len() ==> no_lone_quote(#[trigger] items[j]),
                    forall|j: int| 0 <= j < i ==> no_lone_quote(#[trigger] items[j]),
                decreases list@.len() - i,
            {
                proof {
                    assert(items[i as int] == list@[i as int]@);
                    assert(decreases_to!(*list => list@));
                    assert(decreases_to!(list@ => list@[i as int]));
                    assert(ast->List_0 == *list);
                    assert(decreases_to!(*ast => ast->List_0));
                }
                if !lone_quote_free(&list[i]) {
                    assert(!no_lone_quote(items[i as int]));
                    return false;
                }
                i = i + 1;
            }
            true
        },
    }
}

/// Turns a parsed expression into the value the evaluator works on.
pub fn lower(ast: &Expr) -> (r: Value)
    requires
        no_lone_quote(ast@),
    ensures
        r@ == spec_lower(ast@),
{
    quote_eval(ast)
}

proof fn lemma_lower_list_suffix(items: Seq<SExpr>, i: int)
    requires
        0 <= i < items.len(),
    ensures
        spec_lower_list(items.subrange(i, items.len() as int)) == scons(
            spec_lower(items[i]),
            spec_lower_list(items.subrange(i + 1, items.len() as int)),
        ),
        no_lone_quote_list(items.subrange(i, items.len() as int)) == (no_lone_quote(items[i])
            && no_lone_quote_list(items.subrange(i + 1, items.len() as int))),
{
    let s = items.subrange(i, items.len() as int);
    assert(s[0] == items[i]);
    assert(s.subrange(1, s.len() as int) =~= items.subrange(i + 1, items.len() as int));
}

proof fn lemma_no_lone_quote_all(items: Seq<SExpr>, i: int)
    requires
        0 <= i <= items.len(),
        no_lone_quote_list(items),
    ensures
        no_lone_quote_list(items.subrange(i, items.len() as int)),
    decreases i,
{
    if i == 0 {
        assert(items.subrange(0, items.len() as int) =~= items);
    } else {
        lemma_no_lone_quote_all(items, i - 1);
        lemma_lower_list_suffix(items, i - 1);
    }
}

fn quote_eval(ast: &Expr) -> (r: Value)
    requires
        no_lone_quote(ast@),
    ensures
        r@ == spec_lower(ast@),
    decreases ast,
{
    match ast {
        Expr::Atom(atom, _) => classify(atom),
        Expr::List(list, sp) => {
            let ghost items = exprs_view(list@);
            proof {
                lemma_exprs_view(list@);
                assert(items.subrange(0, items.len() as int) =~= items);
            }
            let mut rv = Value::Nil;
            let mut i = list.len();
            while i > 0
                invariant
                    i <= list@.len(),
                    *ast == Expr::List(*list, *sp),
                    items == list@.map_values(|e: Expr| e@),
                    no_lone_quote_list(items),
                    rv@ == spec_lower_list(items.subrange(i as int, items.len() as int)),
                decreases i,
            {
                i = i - 1;
                proof {
                    lemma_lower_list_suffix(items, i as int);
                    lemma_no_lone_quote_all(items, i as int);
                    assert(items[i as int] == list@[i as int]@);
                    assert(decreases_to!(*list => list@));
                    assert(decreases_to!(list@ => list@[i as int]));
                    assert(ast->List_0 == *list);
                    assert(decreases_to!(*ast => ast->List_0));
                }
                let v = quote_eval(&list[i]);
                rv = cons(v, rv);
            }
            rv
        },
    }
}

/// The value an atom stands for.
fn classify(atom: &str) -> (r: Value)
    requires
        !lone_quote(atom@),
    ensures
        r@ == spec_classify(atom@),
{
    match parse_number(atom) {
        Some(b) => {
            return Value::Num(b);
        },
        None => {},
    }
    match Form::try_parse(atom) {
        Some(f) => {
            return Value::Form(f);
        },
        None => {},
    }
    if str_eq(atom, "nil") {
        return Value::Nil;
    }
    if str_eq(atom, "#t") {
        return Value::Bool(true);
    }
    if str_eq(atom, "#f") {
        return Value::Bool(false);
    }
    let chars = chars_of(atom);
    let n = chars.len();
    if n >= 2 && chars[0] == '"' && chars[n - 1] == '"' {
        Value::Str(owned(atom.substring_char(1, n - 1)))
    } else {
        Value::Symbol(owned(atom))
    }
}

} // verus!
