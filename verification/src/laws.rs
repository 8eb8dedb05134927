//! Properties of the interpreter as a whole, stated over the mathematical meaning of its
//! parts and proved.
use vstd::prelude::*;

use crate::cursor::paren_balance;
use crate::eval::builtins::list::{spec_car, spec_cdr, spec_cons};
use crate::eval::env::{
    builtin_named, parent_of, spec_define, spec_lookup, spec_new_child, spec_resolve, SEnv,
};
use crate::eval::error::SError;
use crate::eval::lower::{no_lone_quote, spec_lower};
use crate::eval::semantics::{
    is_splice, spec_apply, spec_bind, spec_define_form, spec_eval, spec_eval_args,
    spec_eval_form, spec_process_tokens, spec_progn, spec_qq, spec_setup_env, spec_step,
    is_variadic, splice_arg, variadic_index, STramp,
};
use crate::lexer::{
    emit, lex_prefix, punct_kind, spec_lex, white_space, LexState, SKind, SToken,
};
use crate::parser::{quote_name, spec_parse_expr, spec_parse_items, spec_parse_list, ParseError, SExpr};
use crate::eval::value::{
    is_proper_list, list_items, scons, slist, spec_truthy, sval_size, Form, SVal,
};

verus! {

/// A list built from items has exactly those items, and ends in `nil`.
pub proof fn law_list_items_of_list(items: Seq<SVal>)
    ensures
        list_items(slist(items)) == items,
        is_proper_list(slist(items)),
    decreases items.len(),
{
    if items.len() > 0 {
        let rest = items.subrange(1, items.len() as int);
        law_list_items_of_list(rest);
        assert(seq![items[0]] + rest =~= items);
    }
}

/// `car` and `cdr` give back the two values `cons` paired.
pub proof fn law_car_cdr_of_cons(a: SVal, b: SVal)
    ensures
        spec_cons(slist(seq![a, b])) == Ok::<SVal, crate::eval::env::BuiltinError>(scons(a, b)),
        spec_car(slist(seq![scons(a, b)])) == Ok::<SVal, crate::eval::env::BuiltinError>(a),
        spec_cdr(slist(seq![scons(a, b)])) == Ok::<SVal, crate::eval::env::BuiltinError>(b),
{
    lemma_slist2(a, b);
    lemma_slist1(scons(a, b));
}

proof fn lemma_slist1(a: SVal)
    ensures
        slist(seq![a]) == scons(a, SVal::Nil),
{
    assert(seq![a].subrange(1, 1) =~= Seq::<SVal>::empty());
    assert(slist(Seq::<SVal>::empty()) == SVal::Nil);
}

proof fn lemma_slist2(a: SVal, b: SVal)
    ensures
        slist(seq![a, b]) == scons(a, scons(b, SVal::Nil)),
{
    assert(seq![a, b].subrange(1, 2) =~= seq![b]);
    lemma_slist1(b);
}

proof fn lemma_slist4(a: SVal, b: SVal, c: SVal, d: SVal)
    ensures
        slist(seq![a, b, c, d]) == scons(a, scons(b, scons(c, scons(d, SVal::Nil)))),
{
    assert(seq![a, b, c, d].subrange(1, 4) =~= seq![b, c, d]);
    assert(seq![b, c, d].subrange(1, 3) =~= seq![c, d]);
    lemma_slist2(c, d);
    assert(slist(seq![b, c, d]) == scons(b, slist(seq![c, d])));
    assert(slist(seq![a, b, c, d]) == scons(a, slist(seq![b, c, d])));
}

/// The paren balance of two pieces of text put together is the sum of theirs: a REPL may
/// count line by line.
pub proof fn law_paren_balance_concat(a: Seq<char>, b: Seq<char>)
    ensures
        paren_balance(a + b) == paren_balance(a) + paren_balance(b),
    decreases b.len(),
{
    if b.len() > 0 {
        law_paren_balance_concat(a, b.drop_last());
        assert((a + b).drop_last() =~= a + b.drop_last());
        assert((a + b).last() == b.last());
    }
}

/// A list is true in a condition, whatever it holds: only `nil`, `#f`, the zeros and the
/// empty string are false.
pub proof fn law_lists_are_truthy(h: SVal, t: SVal)
    ensures
        spec_truthy(scons(h, t)),
{
}

/// Values other than lists and symbols evaluate to themselves and leave the store as it is.
pub proof fn law_self_evaluating(v: SVal, env: nat, st: SEnv, fuel: nat)
    requires
        fuel >= 1,
        !(v is Cons),
        !(v is Symbol),
    ensures
        spec_eval(v, env, st, fuel) == (Ok::<SVal, crate::eval::error::SError>(v), st),
{
    assert(spec_step(v, env, st, (fuel - 1) as nat) == (Ok::<STramp, SError>(STramp::Done(v)), st));
}

/// `(quote x)` evaluates to `x` itself, and leaves the store as it is.
pub proof fn law_quote(x: SVal, env: nat, st: SEnv, fuel: nat)
    requires
        fuel >= 1,
    ensures
        spec_eval(slist(seq![SVal::Form(Form::Quote), x]), env, st, fuel) == (Ok::<
            SVal,
            crate::eval::error::SError,
        >(x), st),
{
    let q = slist(seq![SVal::Form(Form::Quote), x]);
    lemma_slist2(SVal::Form(Form::Quote), x);
    let f = (fuel - 1) as nat;
    assert(spec_eval_form(Form::Quote, scons(x, SVal::Nil), env, st, f) == (Ok::<STramp, SError>(
        STramp::Done(x),
    ), st));
    assert(spec_step(q, env, st, f) == (Ok::<STramp, SError>(STramp::Done(x)), st));
}

/// `(if c a b)` evaluates `c`, then goes on with `a` when its value is true and with `b`
/// otherwise, in the store that evaluating `c` left; an error of `c` is the result.
pub proof fn law_if(c: SVal, a: SVal, b: SVal, env: nat, st: SEnv, fuel: nat)
    requires
        fuel >= 1,
    ensures
        ({
            let (rc, st1) = spec_eval(c, env, st, (fuel - 1) as nat);
            spec_eval(slist(seq![SVal::Form(Form::If), c, a, b]), env, st, fuel) == match rc {
                Err(e) => (Err(e), st1),
                Ok(cv) => spec_eval(if spec_truthy(cv) { a } else { b }, env, st1, (fuel - 1) as nat),
            }
        }),
{
    lemma_slist4(SVal::Form(Form::If), c, a, b);
    let f = (fuel - 1) as nat;
    let tail = scons(c, scons(a, scons(b, SVal::Nil)));
    assert(spec_step(slist(seq![SVal::Form(Form::If), c, a, b]), env, st, f) == spec_eval_form(
        Form::If,
        tail,
        env,
        st,
        f,
    ));
}

/// `(progn e)` is `e`.
pub proof fn law_progn_single(e: SVal, env: nat, st: SEnv, fuel: nat)
    requires
        fuel >= 1,
    ensures
        spec_eval(slist(seq![SVal::Form(Form::Progn), e]), env, st, fuel) == spec_eval(
            e,
            env,
            st,
            (fuel - 1) as nat,
        ),
{
    lemma_slist2(SVal::Form(Form::Progn), e);
    let f = (fuel - 1) as nat;
    assert(spec_progn(scons(e, SVal::Nil), env, st, f) == (Ok::<STramp, SError>(
        STramp::Continue(e, env),
    ), st));
    assert(spec_step(slist(seq![SVal::Form(Form::Progn), e]), env, st, f) == (Ok::<
        STramp,
        SError,
    >(STramp::Continue(e, env)), st));
}

/// A name bound in a frame resolves, in that frame, to the value bound, unless it names a
/// built-in (built-ins come first).
pub proof fn law_define_then_resolve(st: SEnv, f: nat, n: Seq<char>, v: SVal)
    requires
        f < st.frames.len(),
        builtin_named(n) is None,
    ensures
        spec_resolve(spec_define(st, f, n, v), f, n) == Some(v),
{
}

/// The frames at and above `g` decide what a name means in `g`: two stores that agree on
/// them agree on every lookup in `g`.
proof fn lemma_lookup_prefix(a: SEnv, b: SEnv, g: nat, n: Seq<char>)
    requires
        g < a.frames.len(),
        g < b.frames.len(),
        forall|i: int| 0 <= i <= g ==> a.frames[i] == b.frames[i],
    ensures
        spec_lookup(a, g, n) == spec_lookup(b, g, n),
    decreases g,
{
    match parent_of(a, g) {
        Some(p) => {
            assert(parent_of(b, g) == Some(p));
            lemma_lookup_prefix(a, b, p, n);
        },
        None => {},
    }
}

/// A new frame sees the bindings of the frame it was made in.
pub proof fn law_child_sees_parent(st: SEnv, parent: nat, n: Seq<char>)
    requires
        parent < st.frames.len(),
    ensures
        ({
            let (st1, c) = spec_new_child(st, parent);
            spec_lookup(st1, c, n) == spec_lookup(st, parent, n)
        }),
{
    let (st1, c) = spec_new_child(st, parent);
    assert(parent_of(st1, c) == Some(parent));
    lemma_lookup_prefix(st1, st, parent, n);
}

/// What is bound in a new frame (such as a call's parameters) is seen in no frame that
/// existed before it.
pub proof fn law_child_bindings_stay_inside(
    st: SEnv,
    parent: nat,
    name: Seq<char>,
    v: SVal,
    g: nat,
    n: Seq<char>,
)
    requires
        g < st.frames.len(),
    ensures
        ({
            let (st1, c) = spec_new_child(st, parent);
            spec_lookup(spec_define(st1, c, name, v), g, n) == spec_lookup(st, g, n)
        }),
{
    let (st1, c) = spec_new_child(st, parent);
    let st2 = spec_define(st1, c, name, v);
    lemma_lookup_prefix(st2, st, g, n);
}

/// A value in which no `unquote` or `unquotesplicing` occurs.
pub open spec fn unquote_free(v: SVal) -> bool
    decreases v,
{
    match v {
        SVal::Form(Form::UnQuote) => false,
        SVal::Form(Form::UnQuoteSplicing) => false,
        SVal::Cons(h, t) => unquote_free(*h) && unquote_free(*t),
        _ => true,
    }
}

/// Quasiquoting what holds no unquote gives it back as it is, as `quote` does, and leaves
/// the store as it is.
pub proof fn law_quasiquote_without_unquote(x: SVal, env: nat, st: SEnv, fuel: nat)
    requires
        unquote_free(x),
    ensures
        spec_qq(x, env, st, fuel) == (Ok::<SVal, crate::eval::error::SError>(x), st),
    decreases sval_size(x),
{
    match x {
        SVal::Cons(h, t) => {
            if *h != SVal::Nil {
                match *h {
                    SVal::Cons(hh, tt) => {
                        assert(unquote_free(*h) == (unquote_free(*hh) && unquote_free(*tt)));
                        assert(unquote_free(*hh));
                    },
                    _ => {},
                }
                assert(!is_splice(*h));
                law_quasiquote_without_unquote(*h, env, st, fuel);
                law_quasiquote_without_unquote(*t, env, st, fuel);
            }
        },
        _ => {},
    }
}

/// One store extends another: it keeps every frame (and the frame each was made in) and
/// the registered sources, and may have more frames.
pub open spec fn store_extends(a: SEnv, b: SEnv) -> bool {
    &&& a.frames.len() <= b.frames.len()
    &&& b.sources == a.sources
    &&& forall|i: int| 0 <= i < a.frames.len() ==> #[trigger] b.frames[i].parent == a.frames[i].parent
}

proof fn lemma_define_extends(st: SEnv, f: nat, n: Seq<char>, v: SVal)
    ensures
        store_extends(st, spec_define(st, f, n, v)),
{
}

/// Evaluation never drops a frame, never changes the frame one was made in, and never
/// changes the registered sources: frames stay valid handles.
pub proof fn law_evaluation_extends_store(ast: SVal, env: nat, st: SEnv, fuel: nat)
    ensures
        store_extends(st, spec_eval(ast, env, st, fuel).1),
    decreases fuel, 0nat, 0nat,
{
    if fuel > 0 {
        let f = (fuel - 1) as nat;
        let (r, st1) = spec_step(ast, env, st, f);
        lemma_step_extends(ast, env, st, f);
        match r {
            Ok(STramp::Continue(b, e)) => law_evaluation_extends_store(b, e, st1, f),
            _ => {},
        }
    }
}

proof fn lemma_step_extends(ast: SVal, env: nat, st: SEnv, fuel: nat)
    ensures
        store_extends(st, spec_step(ast, env, st, fuel).1),
    decreases fuel, 4nat, 0nat,
{
    match ast {
        SVal::Cons(h, t) => match *h {
            SVal::Nil => {},
            SVal::Form(form) => lemma_eval_form_extends(form, *t, env, st, fuel),
            _ => {
                law_evaluation_extends_store(*h, env, st, fuel);
                let (hr, st1) = spec_eval(*h, env, st, fuel);
                match hr {
                    Ok(head) => lemma_apply_extends(head, *t, env, st1, fuel),
                    Err(_) => {},
                }
            },
        },
        _ => {},
    }
}

proof fn lemma_apply_extends(head: SVal, tail: SVal, env: nat, st: SEnv, fuel: nat)
    ensures
        store_extends(st, spec_apply(head, tail, env, st, fuel).1),
    decreases fuel, 3nat, 0nat,
{
    match head {
        SVal::Builtin(_, _) => lemma_eval_args_extends(tail, env, st, fuel),
        SVal::Func { args, env: fenv, .. } => lemma_setup_env_extends(
            tail,
            args,
            false,
            env,
            fenv,
            st,
            fuel,
        ),
        SVal::Lambda { args, env: fenv, .. } => lemma_setup_env_extends(
            tail,
            args,
            false,
            env,
            fenv,
            st,
            fuel,
        ),
        SVal::Macro { args, body, .. } => {
            lemma_setup_env_extends(tail, args, true, env, env, st, fuel);
            let (nr, st1) = spec_setup_env(tail, args, true, env, env, st, fuel);
            match nr {
                Ok(nenv) => law_evaluation_extends_store(*body, nenv, st1, fuel),
                Err(_) => {},
            }
        },
        _ => {},
    }
}

proof fn lemma_eval_args_extends(v: SVal, env: nat, st: SEnv, fuel: nat)
    ensures
        store_extends(st, spec_eval_args(v, env, st, fuel).1),
    decreases fuel, 1nat, sval_size(v),
{
    match v {
        SVal::Cons(h, t) => {
            law_evaluation_extends_store(*h, env, st, fuel);
            let (r1, st1) = spec_eval(*h, env, st, fuel);
            match r1 {
                Ok(_) => lemma_eval_args_extends(*t, env, st1, fuel),
                Err(_) => {},
            }
        },
        _ => {},
    }
}

proof fn lemma_bind_extends(
    params: Seq<Seq<char>>,
    tail: SVal,
    quoted: bool,
    caller: nat,
    nenv: nat,
    st: SEnv,
    fuel: nat,
    nparams: nat,
)
    ensures
        store_extends(st, spec_bind(params, tail, quoted, caller, nenv, st, fuel, nparams).1),
    decreases fuel, 1nat, params.len(),
{
    if params.len() > 0 {
        match tail {
            SVal::Cons(h, t) => {
                if !quoted {
                    law_evaluation_extends_store(*h, caller, st, fuel);
                }
                let (vr, st1) = if quoted {
                    (Ok::<SVal, SError>(*h), st)
                } else {
                    spec_eval(*h, caller, st, fuel)
                };
                match vr {
                    Ok(v) => {
                        let st2 = spec_define(st1, nenv, params[0], v);
                        lemma_define_extends(st1, nenv, params[0], v);
                        lemma_bind_extends(
                            params.subrange(1, params.len() as int),
                            *t,
                            quoted,
                            caller,
                            nenv,
                            st2,
                            fuel,
                            nparams,
                        );
                    },
                    Err(_) => {},
                }
            },
            _ => {},
        }
    }
}

proof fn lemma_setup_env_extends(
    tail: SVal,
    fargs: Seq<Seq<char>>,
    quoted: bool,
    caller: nat,
    parent: nat,
    st: SEnv,
    fuel: nat,
)
    ensures
        store_extends(st, spec_setup_env(tail, fargs, quoted, caller, parent, st, fuel).1),
    decreases fuel, 2nat, 0nat,
{
    let (st1, nenv) = spec_new_child(st, parent);
    let vi = variadic_index(fargs);
    if vi + 1 >= fargs.len() {
        let params = fargs.subrange(0, vi as int);
        lemma_bind_extends(params, tail, quoted, caller, nenv, st1, fuel, fargs.len());
        let (r, st2) = spec_bind(params, tail, quoted, caller, nenv, st1, fuel, fargs.len());
        match r {
            Ok(rest) => if vi < fargs.len() && !quoted {
                lemma_eval_args_extends(rest, caller, st2, fuel);
            },
            Err(_) => {},
        }
    }
}

proof fn lemma_eval_form_extends(form: Form, tail: SVal, env: nat, st: SEnv, fuel: nat)
    ensures
        store_extends(st, spec_eval_form(form, tail, env, st, fuel).1),
    decreases fuel, 3nat, 0nat,
{
    match form {
        Form::QuasiQuote => match tail {
            SVal::Cons(h, _) => lemma_qq_extends(*h, env, st, fuel),
            _ => {},
        },
        Form::Require => match tail {
            SVal::Cons(h, t) => {
                let name = match *h {
                    SVal::Str(s) => Some(s),
                    SVal::Symbol(s) => Some(s),
                    _ => None,
                };
                match name {
                    Some(s) => if !(*t is Cons) && st.sources.contains_key(s) {
                        lemma_process_tokens_extends(
                            spec_lex(st.sources[s]),
                            env,
                            st,
                            fuel,
                            seq![],
                        );
                    },
                    None => {},
                }
            },
            _ => {},
        },
        Form::Progn => lemma_progn_extends(tail, env, st, fuel),
        Form::Eval => law_evaluation_extends_store(tail, env, st, fuel),
        Form::Define => lemma_define_form_extends(form, tail, env, st, fuel),
        Form::DefineMacro => lemma_define_form_extends(form, tail, env, st, fuel),
        Form::If => match tail {
            SVal::Cons(c, _) => law_evaluation_extends_store(*c, env, st, fuel),
            _ => {},
        },
        _ => {},
    }
}

proof fn lemma_progn_extends(v: SVal, env: nat, st: SEnv, fuel: nat)
    ensures
        store_extends(st, spec_progn(v, env, st, fuel).1),
    decreases fuel, 1nat, sval_size(v),
{
    match v {
        SVal::Cons(h, t) => if *t is Cons {
            law_evaluation_extends_store(*h, env, st, fuel);
            let (r, st1) = spec_eval(*h, env, st, fuel);
            match r {
                Ok(_) => lemma_progn_extends(*t, env, st1, fuel),
                Err(_) => {},
            }
        },
        _ => {},
    }
}

proof fn lemma_define_form_extends(form: Form, body: SVal, env: nat, st: SEnv, fuel: nat)
    ensures
        store_extends(st, spec_define_form(form, body, env, st, fuel).1),
    decreases fuel, 2nat, 0nat,
{
    match body {
        SVal::Cons(h, t) => match *h {
            SVal::Symbol(atom) => match *t {
                SVal::Cons(v, _) => {
                    law_evaluation_extends_store(*v, env, st, fuel);
                    let (r, st1) = spec_eval(*v, env, st, fuel);
                    match r {
                        Ok(value) => lemma_define_extends(st1, env, atom, value),
                        Err(_) => {},
                    }
                },
                _ => {},
            },
            _ => {},
        },
        _ => {},
    }
}

proof fn lemma_qq_extends(ast: SVal, env: nat, st: SEnv, fuel: nat)
    ensures
        store_extends(st, spec_qq(ast, env, st, fuel).1),
    decreases fuel, 1nat, sval_size(ast),
{
    match ast {
        SVal::Cons(h, t) => if *h == SVal::Nil {
        } else if *h == SVal::Form(Form::UnQuote) {
            law_evaluation_extends_store(*t, env, st, fuel);
        } else if is_splice(*h) {
            law_evaluation_extends_store(splice_arg(*h), env, st, fuel);
            let (r, st1) = spec_eval(splice_arg(*h), env, st, fuel);
            match r {
                Ok(sp) => if is_proper_list(sp) {
                    lemma_qq_extends(*t, env, st1, fuel);
                },
                Err(_) => {},
            }
        } else {
            lemma_qq_extends(*h, env, st, fuel);
            let (r1, st1) = spec_qq(*h, env, st, fuel);
            match r1 {
                Ok(_) => lemma_qq_extends(*t, env, st1, fuel),
                Err(_) => {},
            }
        },
        _ => {},
    }
}

proof fn lemma_process_tokens_extends(
    toks: Seq<SToken>,
    env: nat,
    st: SEnv,
    fuel: nat,
    acc: Seq<SVal>,
)
    ensures
        store_extends(st, spec_process_tokens(toks, env, st, fuel, acc).1),
    decreases fuel, 1nat, toks.len(),
{
    if toks.len() > 0 {
        match spec_parse_expr(toks) {
            Ok((e, n)) => if 0 < n && n <= toks.len() && no_lone_quote(e) {
                law_evaluation_extends_store(spec_lower(e), env, st, fuel);
                let (r, st1) = spec_eval(spec_lower(e), env, st, fuel);
                match r {
                    Ok(v) => lemma_process_tokens_extends(
                        toks.subrange(n as int, toks.len() as int),
                        env,
                        st1,
                        fuel,
                        acc.push(v),
                    ),
                    Err(_) => {},
                }
            },
            Err(_) => {},
        }
    }
}

/// After `(define n e)` succeeds in frame `f`, it has given `nil`, and evaluating `n` in `f`
/// gives the value `e` had (unless `n` names a built-in, which comes first).
pub proof fn law_define_then_eval(n: Seq<char>, e: SVal, f: nat, st: SEnv, fuel: nat)
    requires
        f < st.frames.len(),
        builtin_named(n) is None,
        fuel >= 1,
    ensures
        ({
            let (r, st1) = spec_eval(
                slist(seq![SVal::Form(Form::Define), SVal::Symbol(n), e]),
                f,
                st,
                fuel,
            );
            let (re, _) = spec_eval(e, f, st, (fuel - 1) as nat);
            r is Ok ==> {
                &&& r == Ok::<SVal, SError>(SVal::Nil)
                &&& re is Ok
                &&& spec_eval(SVal::Symbol(n), f, st1, 1) == (re, st1)
            }
        }),
{
    let k = (fuel - 1) as nat;
    lemma_slist3(SVal::Form(Form::Define), SVal::Symbol(n), e);
    let tail = scons(SVal::Symbol(n), scons(e, SVal::Nil));
    law_evaluation_extends_store(e, f, st, k);
    let (re, ste) = spec_eval(e, f, st, k);
    assert(spec_define_form(Form::Define, tail, f, st, k) == match re {
        Err(er) => (Err::<(), SError>(er), ste),
        Ok(value) => (Ok::<(), SError>(()), spec_define(ste, f, n, value)),
    });
    match re {
        Ok(value) => {
            let st1 = spec_define(ste, f, n, value);
            assert(spec_step(
                slist(seq![SVal::Form(Form::Define), SVal::Symbol(n), e]),
                f,
                st,
                k,
            ) == (Ok::<STramp, SError>(STramp::Done(SVal::Nil)), st1));
            assert(spec_resolve(st1, f, n) == Some(value));
            assert(spec_step(SVal::Symbol(n), f, st1, 0) == (Ok::<STramp, SError>(
                STramp::Done(value),
            ), st1));
        },
        Err(_) => {
            assert(spec_step(
                slist(seq![SVal::Form(Form::Define), SVal::Symbol(n), e]),
                f,
                st,
                k,
            ).0 is Err);
        },
    }
}

proof fn lemma_slist3(a: SVal, b: SVal, c: SVal)
    ensures
        slist(seq![a, b, c]) == scons(a, scons(b, scons(c, SVal::Nil))),
{
    assert(seq![a, b, c].subrange(1, 3) =~= seq![b, c]);
    lemma_slist2(b, c);
    assert(slist(seq![a, b, c]) == scons(a, slist(seq![b, c])));
}

/// Calling a one-parameter function or lambda evaluates the argument in the caller's frame,
/// then binds it in a new frame made in the closure's own frame, and goes on with the body
/// there: scoping is lexical.
pub proof fn law_call_binds_parameter(
    x: Seq<char>,
    body: SVal,
    fenv: nat,
    a: SVal,
    env: nat,
    st: SEnv,
    fuel: nat,
)
    requires
        !is_variadic(x),
    ensures
        ({
            let head = SVal::Lambda { args: seq![x], body: Box::new(body), env: fenv };
            let (st1, c) = spec_new_child(st, fenv);
            let (ra, st2) = spec_eval(a, env, st1, fuel);
            spec_apply(head, slist(seq![a]), env, st, fuel) == match ra {
                Err(e) => (Err(e), st2),
                Ok(v) => (
                    Ok::<STramp, SError>(STramp::Continue(body, c)),
                    spec_define(st2, c, x, v),
                ),
            }
        }),
{
    let params = seq![x];
    lemma_slist1(a);
    assert(variadic_index(params.subrange(1, 1)) == 0);
    assert(variadic_index(params) == 1);
    assert(params.subrange(0, 1) =~= params);
    assert(params.subrange(1, 1) =~= Seq::<Seq<char>>::empty());
    let (st1, c) = spec_new_child(st, fenv);
    let (ra, st2) = spec_eval(a, env, st1, fuel);
    let tail = scons(a, SVal::Nil);
    match ra {
        Ok(v) => {
            let st3 = spec_define(st2, c, x, v);
            assert(spec_bind(Seq::<Seq<char>>::empty(), SVal::Nil, false, env, c, st3, fuel, 1)
                == (Ok::<SVal, SError>(SVal::Nil), st3));
            assert(spec_bind(params, tail, false, env, c, st1, fuel, 1) == (Ok::<SVal, SError>(
                SVal::Nil,
            ), st3));
            assert(spec_setup_env(tail, params, false, env, fenv, st, fuel) == (Ok::<nat, SError>(
                c,
            ), st3));
        },
        Err(e) => {
            assert(spec_bind(params, tail, false, env, c, st1, fuel, 1) == (Err::<SVal, SError>(
                e,
            ), st2));
            assert(spec_setup_env(tail, params, false, env, fenv, st, fuel) == (Err::<nat, SError>(
                e,
            ), st2));
        },
    }
}

/// Calling a one-parameter macro binds the argument expression itself, unevaluated, in a new
/// frame made in the caller's frame, evaluates the body there, and goes on with the
/// expansion in the caller's frame.
pub proof fn law_macro_binds_unevaluated(
    name: Seq<char>,
    x: Seq<char>,
    body: SVal,
    a: SVal,
    env: nat,
    st: SEnv,
    fuel: nat,
)
    requires
        !is_variadic(x),
    ensures
        ({
            let head = SVal::Macro { name, args: seq![x], body: Box::new(body) };
            let (st1, c) = spec_new_child(st, env);
            let st2 = spec_define(st1, c, x, a);
            let (rb, st3) = spec_eval(body, c, st2, fuel);
            spec_apply(head, slist(seq![a]), env, st, fuel) == match rb {
                Err(e) => (Err(e), st3),
                Ok(expansion) => (Ok::<STramp, SError>(STramp::Continue(expansion, env)), st3),
            }
        }),
{
    let params = seq![x];
    lemma_slist1(a);
    assert(variadic_index(params.subrange(1, 1)) == 0);
    assert(variadic_index(params) == 1);
    assert(params.subrange(0, 1) =~= params);
    assert(params.subrange(1, 1) =~= Seq::<Seq<char>>::empty());
    let (st1, c) = spec_new_child(st, env);
    let st2 = spec_define(st1, c, x, a);
    let tail = scons(a, SVal::Nil);
    assert(spec_bind(Seq::<Seq<char>>::empty(), SVal::Nil, true, env, c, st2, fuel, 1) == (Ok::<
        SVal,
        SError,
    >(SVal::Nil), st2));
    assert(spec_bind(params, tail, true, env, c, st1, fuel, 1) == (Ok::<SVal, SError>(SVal::Nil), st2));
    assert(spec_setup_env(tail, params, true, env, env, st, fuel) == (Ok::<nat, SError>(c), st2));
}

/// A quote mark before an expression parses as the two-element list `(quote e)` (or
/// `quasiquote`, `unquote`, `unquotesplicing` for the other marks), at the mark's place,
/// taking one token more than the expression.
pub proof fn law_quote_mark_expands(t: Seq<SToken>)
    requires
        t.len() >= 2,
        !(t[0].kind is Symbol || t[0].kind is LeftParen || t[0].kind is RightParen),
        spec_parse_expr(t.subrange(1, t.len() as int)) is Ok,
    ensures
        ({
            let (e, n) = spec_parse_expr(t.subrange(1, t.len() as int)).unwrap();
            spec_parse_expr(t) == Ok::<(SExpr, nat), ParseError>(
                (
                    SExpr::List(
                        seq![SExpr::Atom(quote_name(t[0].kind), t[0].line, t[0].column), e],
                        t[0].line,
                        t[0].column,
                    ),
                    n + 1,
                ),
            )
        }),
{
}

/// `items` are what successive parses read from `t`, starting at `i`, each from the tokens
/// the previous one left, ending exactly at `end`.
pub open spec fn reads_items(t: Seq<SToken>, i: nat, end: nat, items: Seq<SExpr>) -> bool
    decreases items.len(),
{
    if items.len() == 0 {
        i == end
    } else {
        match spec_parse_expr(t.subrange(i as int, t.len() as int)) {
            Ok((e, m)) => e == items[0] && 0 < m && reads_items(
                t,
                i + m,
                end,
                items.subrange(1, items.len() as int),
            ),
            Err(_) => false,
        }
    }
}

proof fn lemma_parse_items_structure(t: Seq<SToken>, i: nat, acc: Seq<SExpr>)
    requires
        i <= t.len(),
        spec_parse_items(t, i, acc) is Ok,
    ensures
        ({
            let (all, n) = spec_parse_items(t, i, acc).unwrap();
            &&& acc.len() <= all.len()
            &&& all.subrange(0, acc.len() as int) == acc
            &&& i < n <= t.len()
            &&& t[n - 1].kind is RightParen
            &&& reads_items(t, i, (n - 1) as nat, all.subrange(acc.len() as int, all.len() as int))
        }),
    decreases t.len() - i,
{
    let (all, n) = spec_parse_items(t, i, acc).unwrap();
    if t[i as int].kind is RightParen {
        assert(all == acc);
        assert(all.subrange(0, acc.len() as int) =~= acc);
        assert(all.subrange(acc.len() as int, all.len() as int) =~= Seq::<SExpr>::empty());
    } else {
        let (e, m) = spec_parse_expr(t.subrange(i as int, t.len() as int)).unwrap();
        lemma_parse_items_structure(t, i + m, acc.push(e));
        let rest = all.subrange(acc.len() as int, all.len() as int);
        assert(all.subrange(0, (acc.len() + 1) as int) == acc.push(e));
        assert(all[acc.len() as int] == all.subrange(0, (acc.len() + 1) as int)[acc.len() as int]);
        assert(rest[0] == e);
        assert(rest.subrange(1, rest.len() as int) =~= all.subrange(
            (acc.len() + 1) as int,
            all.len() as int,
        ));
        assert(all.subrange(0, acc.len() as int) =~= acc.push(e).subrange(0, acc.len() as int));
        assert(acc.push(e).subrange(0, acc.len() as int) =~= acc);
    }
}

/// A list parsed after its `(` carries the place of the token after the `(`; it ends at a
/// `)`, and its items are what successive parses read from the tokens before that `)`,
/// using all of them.
pub proof fn law_parse_list_structure(t: Seq<SToken>)
    requires
        spec_parse_list(t) is Ok,
    ensures
        ({
            let (l, n) = spec_parse_list(t).unwrap();
            &&& l matches SExpr::List(items, line, column) && line == t[0].line && column
                == t[0].column && reads_items(t, 0, (n - 1) as nat, items)
            &&& 0 < n <= t.len()
            &&& t[n - 1].kind is RightParen
        }),
{
    lemma_parse_items_structure(t, 0, seq![]);
    let (all, n) = spec_parse_items(t, 0, seq![]).unwrap();
    assert(all.subrange(0, all.len() as int) =~= all);
}

/// The line (from 0) of the char at `p`: the newlines before it.
pub open spec fn pos_line(chars: Seq<char>, p: nat) -> nat
    decreases p,
{
    if p == 0 {
        0
    } else {
        pos_line(chars, (p - 1) as nat) + if chars[p - 1] == '\n' {
            1nat
        } else {
            0nat
        }
    }
}

/// The column (from 1) of the char at `p`: one more than the chars between it and the
/// newline before it (or the start).
pub open spec fn pos_col(chars: Seq<char>, p: nat) -> nat
    decreases p,
{
    if p == 0 {
        1
    } else if chars[p - 1] == '\n' {
        1
    } else {
        pos_col(chars, (p - 1) as nat) + 1
    }
}

/// The token starts at `p`: its text (a symbol's chars, or its punctuation char) is there,
/// and its line and column are those of the char at `p`.
pub open spec fn token_at(chars: Seq<char>, t: SToken, p: nat) -> bool {
    &&& p < chars.len()
    &&& t.line == pos_line(chars, p)
    &&& t.column == pos_col(chars, p)
    &&& match t.kind {
        SKind::Symbol(s) => s.len() > 0 && p + s.len() <= chars.len() && chars.subrange(
            p as int,
            (p + s.len()) as int,
        ) == s,
        SKind::LeftParen => chars[p as int] == '(',
        SKind::RightParen => chars[p as int] == ')',
        SKind::Quote => chars[p as int] == '\'',
        SKind::QuasiQuote => chars[p as int] == '`',
        SKind::UnQuote => chars[p as int] == ',',
        SKind::UnQuoteSplicing => chars[p as int] == '@',
    }
}

/// The token starts somewhere in `chars`.
pub open spec fn placed(chars: Seq<char>, t: SToken) -> bool {
    exists|p: nat| #[trigger] token_at(chars, t, p)
}

pub open spec fn all_tokens_placed(chars: Seq<char>, ts: Seq<SToken>) -> bool {
    forall|k: int| 0 <= k < ts.len() ==> placed(chars, #[trigger] ts[k])
}

spec fn placed_state(chars: Seq<char>, n: nat) -> bool {
    let st = lex_prefix(chars, n);
    &&& st.line == pos_line(chars, n)
    &&& st.column + 1 == pos_col(chars, n)
    &&& !st.building
    &&& !st.escape
    &&& st.last <= n
    &&& (st.last < n ==> pos_line(chars, st.last) == st.line && st.start_col == pos_col(
        chars,
        st.last,
    ) && !st.comment)
    &&& all_tokens_placed(chars, st.tokens)
}

proof fn lemma_placed_push(chars: Seq<char>, ts: Seq<SToken>, t: SToken, p: nat)
    requires
        all_tokens_placed(chars, ts),
        token_at(chars, t, p),
    ensures
        all_tokens_placed(chars, ts.push(t)),
{
    assert forall|k: int| 0 <= k < ts.push(t).len() implies placed(chars, #[trigger] ts.push(t)[k]) by {
        if k < ts.len() {
            assert(ts.push(t)[k] == ts[k]);
        } else {
            assert(ts.push(t)[k] == t);
        }
    }
}

proof fn lemma_placed_emit(chars: Seq<char>, st: LexState, i: nat, kind: Option<SKind>)
    requires
        i < chars.len(),
        all_tokens_placed(chars, st.tokens),
        st.last <= i,
        st.last < i ==> pos_line(chars, st.last) == st.line && st.start_col == pos_col(
            chars,
            st.last,
        ),
        kind is Some ==> token_at(
            chars,
            SToken { kind: kind.unwrap(), line: st.line, column: st.column },
            i,
        ),
    ensures
        all_tokens_placed(chars, emit(chars, st, i, i, kind).tokens),
{
    let t1 = if st.last != i {
        let t = SToken {
            kind: SKind::Symbol(chars.subrange(st.last as int, i as int)),
            line: st.line,
            column: st.start_col,
        };
        assert(token_at(chars, t, st.last));
        lemma_placed_push(chars, st.tokens, t, st.last);
        st.tokens.push(t)
    } else {
        st.tokens
    };
    match kind {
        Some(k) => lemma_placed_push(
            chars,
            t1,
            SToken { kind: k, line: st.line, column: st.column },
            i,
        ),
        None => {},
    }
}

proof fn lemma_placed_prefix(chars: Seq<char>, n: nat)
    requires
        n <= chars.len(),
        forall|j: int| 0 <= j < chars.len() ==> chars[j] != '"',
    ensures
        placed_state(chars, n),
    decreases n,
{
    if n > 0 {
        let i = (n - 1) as nat;
        lemma_placed_prefix(chars, i);
        let st0 = lex_prefix(chars, i);
        let c = chars[i as int];
        let st = LexState { column: st0.column + 1, ..st0 };
        assert(c != '"');
        if c == '\n' {
            lemma_placed_emit(chars, LexState { comment: false, ..st }, i, None);
        } else if st.comment {
            lemma_placed_emit(chars, st, i, None);
        } else if punct_kind(c) is Some {
            lemma_placed_emit(chars, st, i, punct_kind(c));
        } else if c == ';' {
            lemma_placed_emit(chars, LexState { comment: true, ..st }, i, None);
        } else if white_space(c) {
            lemma_placed_emit(chars, st, i, None);
        }
    }
}

/// In text without string literals, every token carries the line (from 0) and column (from
/// 1) of its first char, and its text stands there: what follows a token never changes it.
pub proof fn law_token_positions(chars: Seq<char>)
    requires
        forall|j: int| 0 <= j < chars.len() ==> chars[j] != '"',
    ensures
        all_tokens_placed(chars, spec_lex(chars)),
{
    let n = chars.len();
    lemma_placed_prefix(chars, n);
    let st = lex_prefix(chars, n);
    if st.last != n {
        let t = SToken {
            kind: SKind::Symbol(chars.subrange(st.last as int, n as int)),
            line: st.line,
            column: st.start_col,
        };
        assert(token_at(chars, t, st.last));
        lemma_placed_push(chars, st.tokens, t, st.last);
    }
}

} // verus!
