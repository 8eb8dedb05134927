//! The evaluator: a trampolined interpreter over a store of frames.
//!
//! Each function here computes exactly what its counterpart in `semantics` says, on the
//! same step budget, and leaves the store as that counterpart says.
use std::rc::Rc;
use vstd::prelude::*;

use crate::eval::builtins::dispatch::apply_builtin;
use crate::eval::builtins::list::{append_items, items_of};
use crate::eval::env::Env;
use crate::eval::error::{Error, EvalError, SError};
use crate::eval::lower::{lone_quote_free, lower};
use crate::eval::semantics::{
    all_symbols, is_variadic, spec_apply, spec_bind, spec_define_form, spec_eval,
    spec_eval_args, spec_eval_form, spec_make_callable, spec_process_tokens, spec_progn,
    spec_qq, spec_setup_env, spec_step, variadic_index, STramp,
};
use crate::eval::value::{cons, list_items, scons, sval_size, BuiltinFn, Form, SVal, Value};
use crate::lexer::{lex, tokens_view, Token};
use crate::parser::{lemma_parse_consumes, lemma_views_subrange, parse_expr};
use crate::text::{chars_of, owned, strings_view};

verus! {

/// What one step of evaluation gives: a value, or an expression to go on with in a frame.
enum Tramp {
    Done(Value),
    Continue(Value, usize),
}

/// The mathematical value of an evaluation result.
pub open spec fn res_view(r: Result<Value, Error>) -> Result<SVal, SError> {
    match r {
        Ok(v) => Ok(v@),
        Err(e) => Err(e@),
    }
}

/// The values of a sequence of values.
pub open spec fn values_view(v: Seq<Value>) -> Seq<SVal> {
    v.map_values(|x: Value| x@)
}

/// The mathematical value of the results of a run of expressions.
pub open spec fn results_view(r: Result<Vec<Value>, Error>) -> Result<Seq<SVal>, SError> {
    match r {
        Ok(v) => Ok(values_view(v@)),
        Err(e) => Err(e@),
    }
}

spec fn tramp_view(r: Result<Tramp, Error>) -> Result<STramp, SError> {
    match r {
        Ok(Tramp::Done(v)) => Ok(STramp::Done(v@)),
        Ok(Tramp::Continue(b, e)) => Ok(STramp::Continue(b@, e as nat)),
        Err(e) => Err(e@),
    }
}

spec fn frame_view(r: Result<usize, Error>) -> Result<nat, SError> {
    match r {
        Ok(f) => Ok(f as nat),
        Err(e) => Err(e@),
    }
}

spec fn unit_view(r: Result<(), Error>) -> Result<(), SError> {
    match r {
        Ok(_) => Ok(()),
        Err(e) => Err(e@),
    }
}

spec fn callable_view(r: Result<(Option<String>, Vec<String>, Value), Error>) -> Result<
    (Option<Seq<char>>, Seq<Seq<char>>, SVal),
    SError,
> {
    match r {
        Ok((Some(n), a, b)) => Ok((Some(n@), strings_view(a@), b@)),
        Ok((None, a, b)) => Ok((None, strings_view(a@), b@)),
        Err(e) => Err(e@),
    }
}

/// The step budget of a top-level evaluation.
pub open spec fn top_fuel() -> nat {
    u64::MAX as nat
}

/// Evaluates `ast` in frame `env` of `store`.
pub fn eval(ast: Value, env: usize, store: &mut Env) -> (r: Result<Value, Error>)
    requires
        old(store).wf(),
    ensures
        final(store).wf(),
        (res_view(r), final(store)@) == spec_eval(ast@, env as nat, old(store)@, top_fuel()),
{
    eval_in(&ast, env, store, u64::MAX)
}

/// Evaluates `ast` in frame `env` on a budget of `fuel` steps.
fn eval_in(ast: &Value, env: usize, store: &mut Env, fuel: u64) -> (r: Result<Value, Error>)
    requires
        old(store).wf(),
    ensures
        final(store).wf(),
        (res_view(r), final(store)@) == spec_eval(ast@, env as nat, old(store)@, fuel as nat),
    decreases fuel, 0nat, 0nat,
{
    let mut cur = ast.dup();
    let mut e = env;
    let mut f = fuel;
    loop
        invariant
            store.wf(),
            f <= fuel,
            spec_eval(cur@, e as nat, store@, f as nat) == spec_eval(
                ast@,
                env as nat,
                old(store)@,
                fuel as nat,
            ),
        decreases f,
    {
        if f == 0 {
            return Err(Error::Eval(EvalError::OutOfFuel));
        }
        match step(&cur, e, store, f - 1) {
            Err(err) => {
                return Err(err);
            },
            Ok(Tramp::Done(v)) => {
                return Ok(v);
            },
            Ok(Tramp::Continue(b, ne)) => {
                cur = b;
                e = ne;
                f = f - 1;
            },
        }
    }
}

/// One step of evaluation.
fn step(ast: &Value, env: usize, store: &mut Env, fuel: u64) -> (r: Result<Tramp, Error>)
    requires
        old(store).wf(),
    ensures
        final(store).wf(),
        (tramp_view(r), final(store)@) == spec_step(ast@, env as nat, old(store)@, fuel as nat),
    decreases fuel, 4nat, 0nat,
{
    match ast {
        Value::Cons(pair) => {
            proof {
                assert(ast@ == scons(pair.0@, pair.1@));
            }
            match &pair.0 {
                Value::Nil => Ok(Tramp::Done(Value::Nil)),
                Value::Form(form) => eval_form(*form, &pair.1, env, store, fuel),
                _ => match eval_in(&pair.0, env, store, fuel) {
                    Err(e) => Err(e),
                    Ok(head) => apply(head, &pair.1, env, store, fuel),
                },
            }
        },
        Value::Symbol(s) => match store.resolve(env, s.as_str()) {
            Some(v) => Ok(Tramp::Done(v)),
            None => Err(Error::Eval(EvalError::SymbolUndefined(owned(s.as_str())))),
        },
        _ => Ok(Tramp::Done(ast.dup())),
    }
}

/// Applies the value `head` to the argument expressions `tail`.
fn apply(head: Value, tail: &Value, env: usize, store: &mut Env, fuel: u64) -> (r: Result<
    Tramp,
    Error,
>)
    requires
        old(store).wf(),
    ensures
        final(store).wf(),
        (tramp_view(r), final(store)@) == spec_apply(
            head@,
            tail@,
            env as nat,
            old(store)@,
            fuel as nat,
        ),
    decreases fuel, 3nat, 0nat,
{
    match head {
        Value::Builtin(b, _) => match eval_args(tail, env, store, fuel) {
            Err(e) => Err(e),
            Ok(args) => if matches!(b, BuiltinFn::Print | BuiltinFn::GetChar | BuiltinFn::GetLine) {
                match store.apply_io(b, &args) {
                    Ok(v) => Ok(Tramp::Done(v)),
                    Err(e) => Err(e),
                }
            } else {
                match apply_builtin(b, &args) {
                    Ok(v) => Ok(Tramp::Done(v)),
                    Err(e) => Err(Error::Builtin(e)),
                }
            },
        },
        Value::Func { args, body, env: fenv, .. } => match setup_env(
            tail,
            &args,
            false,
            env,
            fenv,
            store,
            fuel,
        ) {
            Err(e) => Err(e),
            Ok(nenv) => {
                let b: &Value = &*body;
                Ok(Tramp::Continue(b.dup(), nenv))
            },
        },
        Value::Lambda { args, body, env: fenv } => match setup_env(
            tail,
            &args,
            false,
            env,
            fenv,
            store,
            fuel,
        ) {
            Err(e) => Err(e),
            Ok(nenv) => {
                let b: &Value = &*body;
                Ok(Tramp::Continue(b.dup(), nenv))
            },
        },
        Value::Macro { args, body, .. } => match setup_env(tail, &args, true, env, env, store, fuel) {
            Err(e) => Err(e),
            Ok(nenv) => {
                let b: &Value = &*body;
                match eval_in(b, nenv, store, fuel) {
                    Err(e) => Err(e),
                    Ok(b2) => Ok(Tramp::Continue(b2, env)),
                }
            },
        },
        _ => Ok(Tramp::Done(head)),
    }
}

/// The list of the values of the items of `v`.
fn eval_args(v: &Value, env: usize, store: &mut Env, fuel: u64) -> (r: Result<Value, Error>)
    requires
        old(store).wf(),
    ensures
        final(store).wf(),
        (res_view(r), final(store)@) == spec_eval_args(v@, env as nat, old(store)@, fuel as nat),
    decreases fuel, 1nat, sval_size(v@),
{
    match v {
        Value::Cons(pair) => {
            proof {
                assert(v@ == scons(pair.0@, pair.1@));
            }
            match eval_in(&pair.0, env, store, fuel) {
                Err(e) => Err(e),
                Ok(x) => match eval_args(&pair.1, env, store, fuel) {
                    Err(e) => Err(e),
                    Ok(xs) => Ok(cons(x, xs)),
                },
            }
        },
        _ => Ok(Value::Nil),
    }
}

/// Whether a parameter name collects the remaining arguments.
fn is_variadic_name(s: &str) -> (r: bool)
    ensures
        r == is_variadic(s@),
{
    let c = chars_of(s);
    let n = c.len();
    n >= 3 && c[n - 3] == '.' && c[n - 2] == '.' && c[n - 1] == '.'
}

proof fn lemma_variadic_index(p: Seq<Seq<char>>, i: int)
    requires
        0 <= i <= p.len(),
        forall|j: int| 0 <= j < i ==> !is_variadic(#[trigger] p[j]),
        i == p.len() || is_variadic(p[i]),
    ensures
        variadic_index(p) == i,
    decreases i,
{
    if i > 0 {
        let r = p.subrange(1, p.len() as int);
        assert(!is_variadic(p[0]));
        assert forall|j: int| 0 <= j < i - 1 implies !is_variadic(#[trigger] r[j]) by {
            assert(r[j] == p[j + 1]);
        }
        if i < p.len() {
            assert(r[i - 1] == p[i]);
        }
        lemma_variadic_index(r, i - 1);
    }
}

/// The position of the first variadic parameter, or the number of parameters.
fn variadic_position(fargs: &Vec<String>) -> (r: usize)
    ensures
        r == variadic_index(strings_view(fargs@)),
        r <= fargs@.len(),
{
    let ghost p = strings_view(fargs@);
    let mut i: usize = 0;
    while i < fargs.len()
        invariant
            i <= fargs@.len(),
            p == strings_view(fargs@),
            forall|j: int| 0 <= j < i ==> !is_variadic(#[trigger] p[j]),
        decreases fargs@.len() - i,
    {
        if is_variadic_name(fargs[i].as_str()) {
            proof {
                lemma_variadic_index(p, i as int);
            }
            return i;
        }
        i = i + 1;
    }
    proof {
        lemma_variadic_index(p, i as int);
    }
    i
}

/// Binds the parameters `fargs[i..vi]` in frame `nenv` to the items of `tail` in turn;
/// gives the items left over.
fn bind(
    fargs: &Vec<String>,
    i: usize,
    vi: usize,
    tail: &Value,
    quoted: bool,
    caller: usize,
    nenv: usize,
    store: &mut Env,
    fuel: u64,
) -> (r: Result<Value, Error>)
    requires
        old(store).wf(),
        i <= vi <= fargs@.len(),
    ensures
        final(store).wf(),
        (res_view(r), final(store)@) == spec_bind(
            strings_view(fargs@).subrange(i as int, vi as int),
            tail@,
            quoted,
            caller as nat,
            nenv as nat,
            old(store)@,
            fuel as nat,
            fargs@.len(),
        ),
    decreases fuel, 1nat, vi - i,
{
    let ghost params = strings_view(fargs@).subrange(i as int, vi as int);
    if i == vi {
        return Ok(tail.dup());
    }
    match tail {
        Value::Cons(pair) => {
            proof {
                assert(tail@ == scons(pair.0@, pair.1@));
                assert(params.subrange(1, params.len() as int) =~= strings_view(fargs@).subrange(
                    i + 1,
                    vi as int,
                ));
                assert(params[0] == fargs@[i as int]@);
            }
            let v = if quoted {
                Ok(pair.0.dup())
            } else {
                eval_in(&pair.0, caller, store, fuel)
            };
            match v {
                Err(e) => Err(e),
                Ok(v) => {
                    store.define(nenv, fargs[i].as_str(), v);
                    bind(fargs, i + 1, vi, &pair.1, quoted, caller, nenv, store, fuel)
                },
            }
        },
        _ => Err(Error::Eval(EvalError::BadFunctionArgCount(fargs.len()))),
    }
}

/// Makes a frame in `parent` binding the parameters `fargs` to the arguments `tail`.
fn setup_env(
    tail: &Value,
    fargs: &Vec<String>,
    quoted: bool,
    caller: usize,
    parent: usize,
    store: &mut Env,
    fuel: u64,
) -> (r: Result<usize, Error>)
    requires
        old(store).wf(),
    ensures
        final(store).wf(),
        (frame_view(r), final(store)@) == spec_setup_env(
            tail@,
            strings_view(fargs@),
            quoted,
            caller as nat,
            parent as nat,
            old(store)@,
            fuel as nat,
        ),
    decreases fuel, 2nat, 0nat,
{
    let nenv = store.new_child(parent);
    let vi = variadic_position(fargs);
    if fargs.len() > 0 && vi < fargs.len() - 1 {
        return Err(Error::Eval(EvalError::VariadicArgsMustBeLast));
    }
    match bind(fargs, 0, vi, tail, quoted, caller, nenv, store, fuel) {
        Err(e) => Err(e),
        Ok(rest) => {
            if vi < fargs.len() {
                proof {
                    assert(strings_view(fargs@)[vi as int] == fargs@[vi as int]@);
                }
                if quoted {
                    store.define(nenv, fargs[vi].as_str(), rest);
                    Ok(nenv)
                } else {
                    match eval_args(&rest, caller, store, fuel) {
                        Err(e) => Err(e),
                        Ok(xs) => {
                            store.define(nenv, fargs[vi].as_str(), xs);
                            Ok(nenv)
                        },
                    }
                }
            } else if matches!(rest, Value::Cons(_)) {
                Err(Error::Eval(EvalError::BadFunctionArgCount(fargs.len())))
            } else {
                Ok(nenv)
            }
        },
    }
}

/// `progn`: evaluates all but the last expression, and goes on with the last.
fn progn(v: &Value, env: usize, store: &mut Env, fuel: u64) -> (r: Result<Tramp, Error>)
    requires
        old(store).wf(),
    ensures
        final(store).wf(),
        (tramp_view(r), final(store)@) == spec_progn(v@, env as nat, old(store)@, fuel as nat),
    decreases fuel, 1nat, sval_size(v@),
{
    match v {
        Value::Cons(pair) => {
            proof {
                assert(v@ == scons(pair.0@, pair.1@));
            }
            if !matches!(pair.1, Value::Cons(_)) {
                Ok(Tramp::Continue(pair.0.dup(), env))
            } else {
                match eval_in(&pair.0, env, store, fuel) {
                    Err(e) => Err(e),
                    Ok(_) => progn(&pair.1, env, store, fuel),
                }
            }
        },
        _ => Err(Error::Eval(EvalError::EmptyPrognBody)),
    }
}

/// Quasiquote: copies `ast`, evaluating what is unquoted and splicing what is spliced.
fn qq(ast: &Value, env: usize, store: &mut Env, fuel: u64) -> (r: Result<Value, Error>)
    requires
        old(store).wf(),
    ensures
        final(store).wf(),
        (res_view(r), final(store)@) == spec_qq(ast@, env as nat, old(store)@, fuel as nat),
    decreases fuel, 1nat, sval_size(ast@),
{
    match ast {
        Value::Cons(pair) => {
            proof {
                assert(ast@ == scons(pair.0@, pair.1@));
            }
            match &pair.0 {
                Value::Nil => {
                    return Ok(ast.dup());
                },
                Value::Form(Form::UnQuote) => {
                    return eval_in(&pair.1, env, store, fuel);
                },
                Value::Cons(inner) => {
                    if matches!(inner.0, Value::Form(Form::UnQuoteSplicing)) {
                        proof {
                            assert(pair.0@ == scons(inner.0@, inner.1@));
                        }
                        return match eval_in(&inner.1, env, store, fuel) {
                            Err(e) => Err(e),
                            Ok(sp) => {
                                let (items, end) = items_of(&sp);
                                if !matches!(end, Value::Nil) {
                                    Err(Error::Eval(EvalError::SpliceNotList))
                                } else {
                                    match qq(&pair.1, env, store, fuel) {
                                        Err(e) => Err(e),
                                        Ok(rest) => Ok(append_items(items, rest)),
                                    }
                                }
                            },
                        };
                    }
                },
                _ => {},
            }
            match qq(&pair.0, env, store, fuel) {
                Err(e) => Err(e),
                Ok(nh) => match qq(&pair.1, env, store, fuel) {
                    Err(e) => Err(e),
                    Ok(nt) => Ok(cons(nh, nt)),
                },
            }
        },
        _ => Ok(ast.dup()),
    }
}

/// The name, parameters and body of a callable, from the arguments of the form that
/// makes it.
fn make_callable(form: Form, body: &Value) -> (r: Result<(Option<String>, Vec<String>, Value), Error>)
    ensures
        callable_view(r) == spec_make_callable(form, body@),
{
    match body {
        Value::Cons(pair) => {
            proof {
                assert(body@ == scons(pair.0@, pair.1@));
            }
            if !matches!(pair.0, Value::Cons(_) | Value::Nil) {
                return Err(Error::Eval(EvalError::BadCallableArgs(form)));
            }
            let (items, _) = items_of(&pair.0);
            let ghost iv = list_items(pair.0@);
            let mut names: Vec<String> = Vec::new();
            let mut i: usize = 0;
            while i < items.len()
                invariant
                    i <= items@.len(),
                    values_view(items@) == iv,
                    iv == list_items(pair.0@),
                    body@ == scons(pair.0@, pair.1@),
                    pair.0@ is Cons || pair.0@ is Nil,
                    forall|j: int| 0 <= j < i ==> #[trigger] iv[j] is Symbol,
                    strings_view(names@) == iv.subrange(0, i as int).map_values(
                        |v: SVal| v->Symbol_0,
                    ),
                decreases items@.len() - i,
            {
                assert(iv[i as int] == items@[i as int]@);
                match &items[i] {
                    Value::Symbol(s) => {
                        let ghost before = names@;
                        names.push(owned(s.as_str()));
                        proof {
                            assert(iv.subrange(0, i + 1) =~= iv.subrange(0, i as int).push(
                                iv[i as int],
                            ));
                            assert(strings_view(names@) =~= strings_view(before).push(s@));
                        }
                    },
                    _ => {
                        assert(!(iv[i as int] is Symbol));
                        assert(!all_symbols(iv));
                        return Err(Error::Eval(EvalError::BadCallableArgsListType(form)));
                    },
                }
                i = i + 1;
            }
            proof {
                assert(iv.subrange(0, iv.len() as int) =~= iv);
            }
            if !matches!(form, Form::Lambda) && names.len() == 0 {
                return Err(Error::Eval(EvalError::BadCallableHead(form)));
            }
            if !matches!(pair.1, Value::Cons(_)) {
                return Err(Error::Eval(EvalError::BadCallableBodyArgs(form)));
            }
            let b = cons(Value::Form(Form::Progn), pair.1.dup());
            if matches!(form, Form::Lambda) {
                Ok((None, names, b))
            } else {
                let ghost all = strings_view(names@);
                let first = names.remove(0);
                proof {
                    assert(strings_view(names@) =~= all.subrange(1, all.len() as int));
                }
                Ok((Some(first), names, b))
            }
        },
        _ => Err(Error::Eval(EvalError::BadCallableArgs(form))),
    }
}

/// `define` and `defmacro`.
fn define_form(form: Form, body: &Value, env: usize, store: &mut Env, fuel: u64) -> (r: Result<
    (),
    Error,
>)
    requires
        old(store).wf(),
        form == Form::Define || form == Form::DefineMacro,
    ensures
        final(store).wf(),
        (unit_view(r), final(store)@) == spec_define_form(
            form,
            body@,
            env as nat,
            old(store)@,
            fuel as nat,
        ),
    decreases fuel, 2nat, 0nat,
{
    match body {
        Value::Cons(pair) => {
            proof {
                assert(body@ == scons(pair.0@, pair.1@));
            }
            match &pair.0 {
                Value::Symbol(atom) => match &pair.1 {
                    Value::Cons(p2) => {
                        proof {
                            assert(pair.1@ == scons(p2.0@, p2.1@));
                        }
                        if matches!(p2.1, Value::Cons(_)) {
                            Err(Error::Eval(EvalError::BadDefineArgs))
                        } else {
                            match eval_in(&p2.0, env, store, fuel) {
                                Err(e) => Err(e),
                                Ok(value) => {
                                    store.define(env, atom.as_str(), value);
                                    Ok(())
                                },
                            }
                        }
                    },
                    _ => Err(Error::Eval(EvalError::BadDefineArgs)),
                },
                Value::Cons(_) => match make_callable(form, body) {
                    Err(e) => Err(e),
                    Ok((name, args, b)) => {
                        let n = match name {
                            Some(n) => n,
                            None => {
                                return Err(Error::Eval(EvalError::BadCallableHead(form)));
                            },
                        };
                        let proc = if matches!(form, Form::Define) {
                            Value::Func { name: owned(n.as_str()), args, body: Rc::new(b), env }
                        } else {
                            Value::Macro { name: owned(n.as_str()), args, body: Rc::new(b) }
                        };
                        store.define(env, n.as_str(), proc);
                        Ok(())
                    },
                },
                _ => Err(Error::Eval(EvalError::BadDefineHead)),
            }
        },
        _ => Err(Error::Eval(EvalError::BadDefineArgs)),
    }
}

/// The special forms.
fn eval_form(form: Form, tail: &Value, env: usize, store: &mut Env, fuel: u64) -> (r: Result<
    Tramp,
    Error,
>)
    requires
        old(store).wf(),
    ensures
        final(store).wf(),
        (tramp_view(r), final(store)@) == spec_eval_form(
            form,
            tail@,
            env as nat,
            old(store)@,
            fuel as nat,
        ),
    decreases fuel, 3nat, 0nat,
{
    match form {
        Form::Quote => match tail {
            Value::Cons(pair) => {
                proof {
                    assert(tail@ == scons(pair.0@, pair.1@));
                }
                Ok(Tramp::Done(pair.0.dup()))
            },
            _ => Err(Error::Eval(EvalError::BadQuoteArgs)),
        },
        Form::QuasiQuote => match tail {
            Value::Cons(pair) => {
                proof {
                    assert(tail@ == scons(pair.0@, pair.1@));
                }
                match qq(&pair.0, env, store, fuel) {
                    Ok(v) => Ok(Tramp::Done(v)),
                    Err(e) => Err(e),
                }
            },
            _ => Err(Error::Eval(EvalError::BadQuoteArgs)),
        },
        Form::UnQuote | Form::UnQuoteSplicing => Err(Error::Eval(EvalError::UnquoteOutsideQuasi)),
        Form::Require => match tail {
            Value::Cons(pair) => {
                proof {
                    assert(tail@ == scons(pair.0@, pair.1@));
                }
                let name: Option<&String> = match &pair.0 {
                    Value::Str(s) => Some(s),
                    Value::Symbol(s) => Some(s),
                    _ => None,
                };
                match name {
                    None => Err(Error::Eval(EvalError::BadRequireArgs)),
                    Some(s) => {
                        if matches!(pair.1, Value::Cons(_)) {
                            Err(Error::Eval(EvalError::BadRequireArgCount(2)))
                        } else {
                            match store.source(s.as_str()) {
                                Some(src) => {
                                    let toks = lex(src.as_str());
                                    match run_tokens(toks.as_slice(), env, store, fuel) {
                                        Ok(_) => Ok(Tramp::Done(Value::Nil)),
                                        Err(e) => Err(e),
                                    }
                                },
                                None => Err(
                                    Error::Eval(EvalError::RequireUnavailable(owned(s.as_str()))),
                                ),
                            }
                        }
                    },
                }
            },
            _ => Err(Error::Eval(EvalError::BadRequireArgCount(0))),
        },
        Form::Progn => progn(tail, env, store, fuel),
        Form::Eval => match eval_in(tail, env, store, fuel) {
            Err(e) => Err(e),
            Ok(v) => Ok(Tramp::Continue(v, env)),
        },
        Form::Define | Form::DefineMacro => match define_form(form, tail, env, store, fuel) {
            Ok(_) => Ok(Tramp::Done(Value::Nil)),
            Err(e) => Err(e),
        },
        Form::If => match tail {
            Value::Cons(p1) => {
                proof {
                    assert(tail@ == scons(p1.0@, p1.1@));
                }
                match &p1.1 {
                    Value::Cons(p2) => {
                        proof {
                            assert(p1.1@ == scons(p2.0@, p2.1@));
                        }
                        match &p2.1 {
                            Value::Cons(p3) => {
                                proof {
                                    assert(p2.1@ == scons(p3.0@, p3.1@));
                                }
                                if matches!(p3.1, Value::Cons(_)) {
                                    Err(Error::Eval(EvalError::BadIfArgs))
                                } else {
                                    match eval_in(&p1.0, env, store, fuel) {
                                        Err(e) => Err(e),
                                        Ok(cv) => if cv.truthy() {
                                            Ok(Tramp::Continue(p2.0.dup(), env))
                                        } else {
                                            Ok(Tramp::Continue(p3.0.dup(), env))
                                        },
                                    }
                                }
                            },
                            _ => Err(Error::Eval(EvalError::BadIfArgs)),
                        }
                    },
                    _ => Err(Error::Eval(EvalError::BadIfArgs)),
                }
            },
            _ => Err(Error::Eval(EvalError::BadIfArgs)),
        },
        Form::Lambda => match make_callable(form, tail) {
            Err(e) => Err(e),
            Ok((_, args, body)) => Ok(Tramp::Done(Value::Lambda { args, body: Rc::new(body), env })),
        },
    }
}

/// Parses, lowers and evaluates the expressions of `tokens` in turn; stops at the first
/// error.
pub fn run_tokens<'a>(tokens: &'a [Token<'a>], env: usize, store: &mut Env, fuel: u64) -> (r: Result<
    Vec<Value>,
    Error,
>)
    requires
        old(store).wf(),
    ensures
        final(store).wf(),
        (results_view(r), final(store)@) == spec_process_tokens(
            tokens_view(tokens@),
            env as nat,
            old(store)@,
            fuel as nat,
            seq![],
        ),
    decreases fuel, 1nat, tokens@.len(),
{
    let mut working: &'a [Token<'a>] = tokens;
    let mut out: Vec<Value> = Vec::new();
    proof {
        assert(values_view(out@) =~= seq![]);
    }
    loop
        invariant
            store.wf(),
            working@.len() <= tokens@.len(),
            spec_process_tokens(
                tokens_view(working@),
                env as nat,
                store@,
                fuel as nat,
                values_view(out@),
            ) == spec_process_tokens(
                tokens_view(tokens@),
                env as nat,
                old(store)@,
                fuel as nat,
                seq![],
            ),
        decreases working@.len(),
    {
        let ghost tv = tokens_view(working@);
        if working.len() == 0 {
            return Ok(out);
        }
        proof {
            lemma_parse_consumes(tv);
        }
        match parse_expr(working) {
            Err(e) => {
                return Err(Error::Parse(e));
            },
            Ok((ast, rest)) => {
                if !lone_quote_free(&ast) {
                    return Err(Error::Eval(EvalError::LoneQuoteAtom));
                }
                let expr = lower(&ast);
                match eval_in(&expr, env, store, fuel) {
                    Err(e) => {
                        return Err(e);
                    },
                    Ok(v) => {
                        proof {
                            let n = tv.len() - rest@.len();
                            lemma_views_subrange(working@, n, working@.len() as int);
                        }
                        let ghost before = values_view(out@);
                        out.push(v);
                        proof {
                            assert(values_view(out@) =~= before.push(v@));
                        }
                        working = rest;
                    },
                }
            },
        }
    }
}

} // verus!
