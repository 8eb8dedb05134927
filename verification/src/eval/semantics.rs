//! The meaning of evaluation, as mathematical functions over values and stores.
//!
//! Every function takes a step budget (`fuel`); each iteration of the evaluation loop
//! spends one unit, and a nested evaluation gets the budget left to its caller. Running
//! out is the error `OutOfFuel`. The evaluator runs with a budget of 2^64 - 1.
use vstd::prelude::*;

use crate::eval::builtins::dispatch::{is_io, spec_apply_builtin};
use crate::eval::builtins::list::spec_append_items;
use crate::eval::env::{spec_apply_io, spec_define, spec_new_child, spec_resolve, SEnv};
use crate::eval::error::{SError, SEvalError};
use crate::eval::lower::{no_lone_quote, spec_lower};
use crate::eval::value::{is_proper_list, list_items, scons, spec_truthy, sval_size, Form, SVal};
use crate::lexer::{spec_lex, SToken};
use crate::parser::spec_parse_expr;

verus! {

/// What one step of evaluation gives: a value, or an expression to go on with in a frame.
pub enum STramp {
    Done(SVal),
    Continue(SVal, nat),
}

pub open spec fn ev(e: SEvalError) -> SError {
    SError::Eval(e)
}

/// A parameter name that collects the remaining arguments: one ending in `...`.
pub open spec fn is_variadic(s: Seq<char>) -> bool {
    s.len() >= 3 && s[s.len() - 3] == '.' && s[s.len() - 2] == '.' && s[s.len() - 1] == '.'
}

/// The position of the first variadic parameter, or the number of parameters.
pub open spec fn variadic_index(params: Seq<Seq<char>>) -> nat
    decreases params.len(),
{
    if params.len() == 0 {
        0
    } else if is_variadic(params[0]) {
        0
    } else {
        1 + variadic_index(params.subrange(1, params.len() as int))
    }
}

/// The names of the symbols among the items.
pub open spec fn symbol_names(items: Seq<SVal>) -> Seq<Seq<char>> {
    items.map_values(|v: SVal| v->Symbol_0)
}

pub open spec fn all_symbols(items: Seq<SVal>) -> bool {
    forall|i: int| 0 <= i < items.len() ==> #[trigger] items[i] is Symbol
}

/// The name (for `define` and `defmacro`), parameters and body of a callable, from the
/// arguments of the form that makes it. The body is the rest of the arguments in a `progn`.
pub open spec fn spec_make_callable(form: Form, body: SVal) -> Result<
    (Option<Seq<char>>, Seq<Seq<char>>, SVal),
    SError,
> {
    match body {
        SVal::Cons(h, rest) => if !(*h is Cons || *h is Nil) {
            Err(ev(SEvalError::BadCallableArgs(form)))
        } else if !all_symbols(list_items(*h)) {
            Err(ev(SEvalError::BadCallableArgsListType(form)))
        } else {
            let names = symbol_names(list_items(*h));
            if form != Form::Lambda && names.len() == 0 {
                Err(ev(SEvalError::BadCallableHead(form)))
            } else if !(*rest is Cons) {
                Err(ev(SEvalError::BadCallableBodyArgs(form)))
            } else {
                let b = scons(SVal::Form(Form::Progn), *rest);
                if form == Form::Lambda {
                    Ok((None, names, b))
                } else {
                    Ok((Some(names[0]), names.subrange(1, names.len() as int), b))
                }
            }
        },
        _ => Err(ev(SEvalError::BadCallableArgs(form))),
    }
}

/// Evaluates `ast` in frame `env`: steps until a value comes out.
pub open spec fn spec_eval(ast: SVal, env: nat, st: SEnv, fuel: nat) -> (Result<SVal, SError>, SEnv)
    decreases fuel, 0nat, 0nat,
{
    if fuel == 0 {
        (Err(ev(SEvalError::OutOfFuel)), st)
    } else {
        let (r, st1) = spec_step(ast, env, st, (fuel - 1) as nat);
        match r {
            Err(e) => (Err(e), st1),
            Ok(STramp::Done(v)) => (Ok(v), st1),
            Ok(STramp::Continue(b, e)) => spec_eval(b, e, st1, (fuel - 1) as nat),
        }
    }
}

/// One step: a symbol is looked up, a list headed by a form runs the form, any other
/// list applies the value of its head; other values stand for themselves.
pub open spec fn spec_step(ast: SVal, env: nat, st: SEnv, fuel: nat) -> (Result<STramp, SError>, SEnv)
    decreases fuel, 4nat, 0nat,
{
    match ast {
        SVal::Cons(h, t) => match *h {
            SVal::Nil => (Ok(STramp::Done(SVal::Nil)), st),
            SVal::Form(form) => spec_eval_form(form, *t, env, st, fuel),
            _ => {
                let (hr, st1) = spec_eval(*h, env, st, fuel);
                match hr {
                    Err(e) => (Err(e), st1),
                    Ok(head) => spec_apply(head, *t, env, st1, fuel),
                }
            },
        },
        SVal::Symbol(s) => match spec_resolve(st, env, s) {
            Some(v) => (Ok(STramp::Done(v)), st),
            None => (Err(ev(SEvalError::SymbolUndefined(s))), st),
        },
        _ => (Ok(STramp::Done(ast)), st),
    }
}

/// Applies the value `head` to the argument expressions `tail`: a built-in to their
/// values; a function or lambda goes on with its body in a new frame of its own frame
/// holding their values; a macro binds them unevaluated in a new frame of the caller's,
/// evaluates its body there, and goes on with the result in the caller's frame. Any other
/// value is the result.
pub open spec fn spec_apply(head: SVal, tail: SVal, env: nat, st: SEnv, fuel: nat) -> (
    Result<STramp, SError>,
    SEnv,
)
    decreases fuel, 3nat, 0nat,
{
    match head {
        SVal::Builtin(b, _) => {
            let (ar, st1) = spec_eval_args(tail, env, st, fuel);
            match ar {
                Err(e) => (Err(e), st1),
                Ok(args) => if is_io(b) {
                    let (r, st2) = spec_apply_io(b, args, st1);
                    match r {
                        Ok(v) => (Ok(STramp::Done(v)), st2),
                        Err(e) => (Err(e), st2),
                    }
                } else {
                    match spec_apply_builtin(b, args) {
                        Ok(v) => (Ok(STramp::Done(v)), st1),
                        Err(e) => (Err(SError::Builtin(e)), st1),
                    }
                },
            }
        },
        SVal::Func { args, body, env: fenv, .. } => {
            let (nr, st1) = spec_setup_env(tail, args, false, env, fenv, st, fuel);
            match nr {
                Err(e) => (Err(e), st1),
                Ok(nenv) => (Ok(STramp::Continue(*body, nenv)), st1),
            }
        },
        SVal::Lambda { args, body, env: fenv } => {
            let (nr, st1) = spec_setup_env(tail, args, false, env, fenv, st, fuel);
            match nr {
                Err(e) => (Err(e), st1),
                Ok(nenv) => (Ok(STramp::Continue(*body, nenv)), st1),
            }
        },
        SVal::Macro { args, body, .. } => {
            let (nr, st1) = spec_setup_env(tail, args, true, env, env, st, fuel);
            match nr {
                Err(e) => (Err(e), st1),
                Ok(nenv) => {
                    let (br, st2) = spec_eval(*body, nenv, st1, fuel);
                    match br {
                        Err(e) => (Err(e), st2),
                        Ok(b2) => (Ok(STramp::Continue(b2, env)), st2),
                    }
                },
            }
        },
        _ => (Ok(STramp::Done(head)), st),
    }
}

/// The list of the values of the items of `v`, evaluated left to right.
pub open spec fn spec_eval_args(v: SVal, env: nat, st: SEnv, fuel: nat) -> (Result<SVal, SError>, SEnv)
    decreases fuel, 1nat, sval_size(v),
{
    match v {
        SVal::Cons(h, t) => {
            let (r1, st1) = spec_eval(*h, env, st, fuel);
            match r1 {
                Err(e) => (Err(e), st1),
                Ok(x) => {
                    let (r2, st2) = spec_eval_args(*t, env, st1, fuel);
                    match r2 {
                        Err(e) => (Err(e), st2),
                        Ok(xs) => (Ok(scons(x, xs)), st2),
                    }
                },
            }
        },
        _ => (Ok(SVal::Nil), st),
    }
}

/// Binds `params` in frame `nenv` to the items of `tail` in turn (their values, unless
/// `quoted`); gives the items left over.
pub open spec fn spec_bind(
    params: Seq<Seq<char>>,
    tail: SVal,
    quoted: bool,
    caller: nat,
    nenv: nat,
    st: SEnv,
    fuel: nat,
    nparams: nat,
) -> (Result<SVal, SError>, SEnv)
    decreases fuel, 1nat, params.len(),
{
    if params.len() == 0 {
        (Ok(tail), st)
    } else {
        match tail {
            SVal::Cons(h, t) => {
                let (vr, st1) = if quoted {
                    (Ok(*h), st)
                } else {
                    spec_eval(*h, caller, st, fuel)
                };
                match vr {
                    Err(e) => (Err(e), st1),
                    Ok(v) => spec_bind(
                        params.subrange(1, params.len() as int),
                        *t,
                        quoted,
                        caller,
                        nenv,
                        spec_define(st1, nenv, params[0], v),
                        fuel,
                        nparams,
                    ),
                }
            },
            _ => (Err(ev(SEvalError::BadFunctionArgCount(nparams as usize))), st),
        }
    }
}

/// Makes a frame in `parent` binding the parameters `fargs` to the arguments `tail`
/// (unevaluated when `quoted`, else evaluated in `caller`); a variadic last parameter
/// takes the list of the rest. Gives the new frame.
pub open spec fn spec_setup_env(
    tail: SVal,
    fargs: Seq<Seq<char>>,
    quoted: bool,
    caller: nat,
    parent: nat,
    st: SEnv,
    fuel: nat,
) -> (Result<nat, SError>, SEnv)
    decreases fuel, 2nat, 0nat,
{
    let (st1, nenv) = spec_new_child(st, parent);
    let vi = variadic_index(fargs);
    if vi + 1 < fargs.len() {
        (Err(ev(SEvalError::VariadicArgsMustBeLast)), st1)
    } else {
        let (r, st2) = spec_bind(
            fargs.subrange(0, vi as int),
            tail,
            quoted,
            caller,
            nenv,
            st1,
            fuel,
            fargs.len(),
        );
        match r {
            Err(e) => (Err(e), st2),
            Ok(rest) => if vi < fargs.len() {
                if quoted {
                    (Ok(nenv), spec_define(st2, nenv, fargs[vi as int], rest))
                } else {
                    let (ar, st3) = spec_eval_args(rest, caller, st2, fuel);
                    match ar {
                        Err(e) => (Err(e), st3),
                        Ok(xs) => (Ok(nenv), spec_define(st3, nenv, fargs[vi as int], xs)),
                    }
                }
            } else if rest is Cons {
                (Err(ev(SEvalError::BadFunctionArgCount(fargs.len() as usize))), st2)
            } else {
                (Ok(nenv), st2)
            },
        }
    }
}

/// The special forms.
pub open spec fn spec_eval_form(form: Form, tail: SVal, env: nat, st: SEnv, fuel: nat) -> (
    Result<STramp, SError>,
    SEnv,
)
    decreases fuel, 3nat, 0nat,
{
    match form {
        Form::Quote => match tail {
            SVal::Cons(h, _) => (Ok(STramp::Done(*h)), st),
            _ => (Err(ev(SEvalError::BadQuoteArgs)), st),
        },
        Form::QuasiQuote => match tail {
            SVal::Cons(h, _) => {
                let (r, st1) = spec_qq(*h, env, st, fuel);
                match r {
                    Ok(v) => (Ok(STramp::Done(v)), st1),
                    Err(e) => (Err(e), st1),
                }
            },
            _ => (Err(ev(SEvalError::BadQuoteArgs)), st),
        },
        Form::UnQuote => (Err(ev(SEvalError::UnquoteOutsideQuasi)), st),
        Form::UnQuoteSplicing => (Err(ev(SEvalError::UnquoteOutsideQuasi)), st),
        Form::Require => match tail {
            SVal::Cons(h, t) => {
                let name = match *h {
                    SVal::Str(s) => Some(s),
                    SVal::Symbol(s) => Some(s),
                    _ => None,
                };
                match name {
                    None => (Err(ev(SEvalError::BadRequireArgs)), st),
                    Some(s) => if *t is Cons {
                        (Err(ev(SEvalError::BadRequireArgCount(2))), st)
                    } else if st.sources.contains_key(s) {
                        let (r, st1) = spec_process_tokens(
                            spec_lex(st.sources[s]),
                            env,
                            st,
                            fuel,
                            seq![],
                        );
                        match r {
                            Ok(_) => (Ok(STramp::Done(SVal::Nil)), st1),
                            Err(e) => (Err(e), st1),
                        }
                    } else {
                        (Err(ev(SEvalError::RequireUnavailable(s))), st)
                    },
                }
            },
            _ => (Err(ev(SEvalError::BadRequireArgCount(0))), st),
        },
        Form::Progn => spec_progn(tail, env, st, fuel),
        Form::Eval => {
            let (r, st1) = spec_eval(tail, env, st, fuel);
            match r {
                Err(e) => (Err(e), st1),
                Ok(v) => (Ok(STramp::Continue(v, env)), st1),
            }
        },
        Form::Define => {
            let (r, st1) = spec_define_form(form, tail, env, st, fuel);
            match r {
                Ok(_) => (Ok(STramp::Done(SVal::Nil)), st1),
                Err(e) => (Err(e), st1),
            }
        },
        Form::DefineMacro => {
            let (r, st1) = spec_define_form(form, tail, env, st, fuel);
            match r {
                Ok(_) => (Ok(STramp::Done(SVal::Nil)), st1),
                Err(e) => (Err(e), st1),
            }
        },
        Form::If => match tail {
            SVal::Cons(c, t1) => match *t1 {
                SVal::Cons(a, t2) => match *t2 {
                    SVal::Cons(b, t3) => if *t3 is Cons {
                        (Err(ev(SEvalError::BadIfArgs)), st)
                    } else {
                        let (r, st1) = spec_eval(*c, env, st, fuel);
                        match r {
                            Err(e) => (Err(e), st1),
                            Ok(cv) => if spec_truthy(cv) {
                                (Ok(STramp::Continue(*a, env)), st1)
                            } else {
                                (Ok(STramp::Continue(*b, env)), st1)
                            },
                        }
                    },
                    _ => (Err(ev(SEvalError::BadIfArgs)), st),
                },
                _ => (Err(ev(SEvalError::BadIfArgs)), st),
            },
            _ => (Err(ev(SEvalError::BadIfArgs)), st),
        },
        Form::Lambda => match spec_make_callable(form, tail) {
            Err(e) => (Err(e), st),
            Ok((_, args, body)) => (
                Ok(STramp::Done(SVal::Lambda { args, body: Box::new(body), env })),
                st,
            ),
        },
    }
}

/// `progn`: evaluates all but the last expression, and goes on with the last.
pub open spec fn spec_progn(v: SVal, env: nat, st: SEnv, fuel: nat) -> (Result<STramp, SError>, SEnv)
    decreases fuel, 1nat, sval_size(v),
{
    match v {
        SVal::Cons(h, t) => if !(*t is Cons) {
            (Ok(STramp::Continue(*h, env)), st)
        } else {
            let (r, st1) = spec_eval(*h, env, st, fuel);
            match r {
                Err(e) => (Err(e), st1),
                Ok(_) => spec_progn(*t, env, st1, fuel),
            }
        },
        _ => (Err(ev(SEvalError::EmptyPrognBody)), st),
    }
}

/// `define` and `defmacro`: `(define name expr)` binds the value of `expr`;
/// `(define (name params...) body...)` binds a function (a macro for `defmacro`).
pub open spec fn spec_define_form(form: Form, body: SVal, env: nat, st: SEnv, fuel: nat) -> (
    Result<(), SError>,
    SEnv,
)
    decreases fuel, 2nat, 0nat,
{
    match body {
        SVal::Cons(h, t) => match *h {
            SVal::Symbol(atom) => match *t {
                SVal::Cons(v, rest) => if *rest is Cons {
                    (Err(ev(SEvalError::BadDefineArgs)), st)
                } else {
                    let (r, st1) = spec_eval(*v, env, st, fuel);
                    match r {
                        Err(e) => (Err(e), st1),
                        Ok(value) => (Ok(()), spec_define(st1, env, atom, value)),
                    }
                },
                _ => (Err(ev(SEvalError::BadDefineArgs)), st),
            },
            SVal::Cons(_, _) => match spec_make_callable(form, body) {
                Err(e) => (Err(e), st),
                Ok((name, args, b)) => {
                    let n = name.unwrap();
                    let proc = if form == Form::Define {
                        SVal::Func { name: n, args, body: Box::new(b), env }
                    } else {
                        SVal::Macro { name: n, args, body: Box::new(b) }
                    };
                    (Ok(()), spec_define(st, env, n, proc))
                },
            },
            _ => (Err(ev(SEvalError::BadDefineHead)), st),
        },
        _ => (Err(ev(SEvalError::BadDefineArgs)), st),
    }
}

/// A list headed by `unquotesplicing`.
pub open spec fn is_splice(v: SVal) -> bool {
    match v {
        SVal::Cons(h, _) => *h == SVal::Form(Form::UnQuoteSplicing),
        _ => false,
    }
}

/// What `(unquotesplicing e...)` evaluates: the list `(e...)`.
pub open spec fn splice_arg(v: SVal) -> SVal {
    match v {
        SVal::Cons(_, t) => *t,
        _ => SVal::Nil,
    }
}

/// Quasiquote: copies `ast`, replacing `(unquote e...)` by the value of `(e...)` and
/// splicing in the items of the list that `(unquotesplicing e...)` evaluates to. A list
/// headed by `nil` is kept as it is.
pub open spec fn spec_qq(ast: SVal, env: nat, st: SEnv, fuel: nat) -> (Result<SVal, SError>, SEnv)
    decreases fuel, 1nat, sval_size(ast),
{
    match ast {
        SVal::Cons(h, t) => if *h == SVal::Nil {
            (Ok(ast), st)
        } else if *h == SVal::Form(Form::UnQuote) {
            spec_eval(*t, env, st, fuel)
        } else if is_splice(*h) {
            let (r, st1) = spec_eval(splice_arg(*h), env, st, fuel);
            match r {
                Err(e) => (Err(e), st1),
                Ok(sp) => if !is_proper_list(sp) {
                    (Err(ev(SEvalError::SpliceNotList)), st1)
                } else {
                    let (r2, st2) = spec_qq(*t, env, st1, fuel);
                    match r2 {
                        Err(e) => (Err(e), st2),
                        Ok(rest) => (Ok(spec_append_items(list_items(sp), rest)), st2),
                    }
                },
            }
        } else {
            let (r1, st1) = spec_qq(*h, env, st, fuel);
            match r1 {
                Err(e) => (Err(e), st1),
                Ok(nh) => {
                    let (r2, st2) = spec_qq(*t, env, st1, fuel);
                    match r2 {
                        Err(e) => (Err(e), st2),
                        Ok(nt) => (Ok(scons(nh, nt)), st2),
                    }
                },
            }
        },
        _ => (Ok(ast), st),
    }
}

/// Parses, lowers and evaluates the expressions of `toks` in turn, after the values `acc`;
/// stops at the first error.
pub open spec fn spec_process_tokens(
    toks: Seq<SToken>,
    env: nat,
    st: SEnv,
    fuel: nat,
    acc: Seq<SVal>,
) -> (Result<Seq<SVal>, SError>, SEnv)
    decreases fuel, 1nat, toks.len(),
{
    if toks.len() == 0 {
        (Ok(acc), st)
    } else {
        match spec_parse_expr(toks) {
            Err(e) => (Err(SError::Parse(e)), st),
            Ok((e, n)) => if !(0 < n && n <= toks.len()) {
                (Err(SError::Parse(crate::parser::ParseError::EmptyInput)), st)
            } else if !no_lone_quote(e) {
                (Err(ev(SEvalError::LoneQuoteAtom)), st)
            } else {
                let (r, st1) = spec_eval(spec_lower(e), env, st, fuel);
                match r {
                    Err(er) => (Err(er), st1),
                    Ok(v) => spec_process_tokens(
                        toks.subrange(n as int, toks.len() as int),
                        env,
                        st1,
                        fuel,
                        acc.push(v),
                    ),
                }
            },
        }
    }
}

} // verus!
