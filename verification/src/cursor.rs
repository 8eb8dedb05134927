//! Running source text: expression by expression, and the paren check a REPL makes
//! before it runs what was typed.
use vstd::prelude::*;

use crate::eval::env::{Env, SEnv, SFrame};
use crate::eval::error::{Error, EvalError, SError, SEvalError};
use crate::eval::eval::{eval, res_view, results_view, run_tokens, top_fuel};
use crate::eval::lower::{lone_quote_free, lower, no_lone_quote, spec_lower};
use crate::eval::semantics::{spec_eval, spec_process_tokens};
use crate::eval::value::{SVal, Value};
use crate::lexer::{lex, spec_lex, tokens_view, SToken, Token};
use crate::parser::{lemma_views_subrange, parse_expr, spec_parse_expr};
use crate::text::chars_of;

verus! {

/// Opening parens minus closing parens.
pub open spec fn paren_balance(s: Seq<char>) -> int
    decreases s.len(),
{
    if s.len() == 0 {
        0
    } else {
        paren_balance(s.drop_last()) + if s.last() == '(' {
            1int
        } else if s.last() == ')' {
            -1int
        } else {
            0int
        }
    }
}

/// The number of parens, opening and closing.
pub open spec fn paren_count(s: Seq<char>) -> nat
    decreases s.len(),
{
    if s.len() == 0 {
        0
    } else {
        paren_count(s.drop_last()) + if s.last() == '(' || s.last() == ')' {
            1nat
        } else {
            0nat
        }
    }
}

proof fn lemma_paren_balance_bound(s: Seq<char>)
    ensures
        -paren_count(s) <= paren_balance(s) <= paren_count(s),
    decreases s.len(),
{
    if s.len() > 0 {
        lemma_paren_balance_bound(s.drop_last());
    }
}

proof fn lemma_paren_count_prefix(s: Seq<char>, i: int)
    requires
        0 <= i <= s.len(),
    ensures
        paren_count(s.take(i)) <= paren_count(s),
    decreases s.len() - i,
{
    if i < s.len() {
        lemma_paren_count_prefix(s, i + 1);
        assert(s.take(i + 1).drop_last() =~= s.take(i));
    } else {
        assert(s.take(i) =~= s);
    }
}

/// The number of `(` in `line` minus the number of `)`.
pub fn count_paren(line: &str) -> (r: i32)
    requires
        paren_count(line@) <= i32::MAX,
    ensures
        r == paren_balance(line@),
{
    let chars = chars_of(line);
    let mut sum: i32 = 0;
    let mut i: usize = 0;
    while i < chars.len()
        invariant
            chars@ == line@,
            paren_count(line@) <= i32::MAX,
            i <= chars@.len(),
            sum == paren_balance(chars@.take(i as int)),
        decreases chars@.len() - i,
    {
        proof {
            assert(chars@.take(i + 1).drop_last() =~= chars@.take(i as int));
            lemma_paren_balance_bound(chars@.take(i as int));
            lemma_paren_count_prefix(chars@, i + 1);
        }
        if chars[i] == '(' {
            sum = sum + 1;
        } else if chars[i] == ')' {
            sum = sum - 1;
        }
        i = i + 1;
    }
    proof {
        assert(chars@.take(chars@.len() as int) =~= chars@);
    }
    sum
}

/// Whether `contents` is complete: `Ok(true)` when its parens balance, `Ok(false)` when
/// some are still open, and an error when more are closed than opened.
pub fn is_ready_to_process(contents: &str) -> (r: Result<bool, Error>)
    requires
        paren_count(contents@) <= i32::MAX,
    ensures
        paren_balance(contents@) < 0 ==> r == Err::<bool, Error>(Error::UnbalancedParens),
        paren_balance(contents@) > 0 ==> r == Ok::<bool, Error>(false),
        paren_balance(contents@) == 0 ==> r == Ok::<bool, Error>(true),
{
    let p = count_paren(contents);
    if p < 0 {
        Err(Error::UnbalancedParens)
    } else if p > 0 {
        Ok(false)
    } else {
        Ok(true)
    }
}

/// Evaluates the expressions of `contents` in turn, in frame `env` of `store`, and gives
/// their values; stops at the first error.
pub fn process(contents: &str, env: usize, store: &mut Env) -> (r: Result<Vec<Value>, Error>)
    requires
        old(store).wf(),
    ensures
        final(store).wf(),
        (results_view(r), final(store)@) == spec_process_tokens(
            spec_lex(contents@),
            env as nat,
            old(store)@,
            top_fuel(),
            seq![],
        ),
{
    let tokens = lex(contents);
    run_tokens(tokens.as_slice(), env, store, u64::MAX)
}

/// The store `Env::new` makes: one empty global frame, no sources.
pub open spec fn fresh_store() -> SEnv {
    SEnv {
        frames: seq![SFrame { vars: Map::empty(), parent: None }],
        sources: Map::empty(),
        input: Seq::empty(),
        input_closed: false,
        output: Seq::empty(),
    }
}

/// What loading a library and then its macros into a fresh store gives: the store, or the
/// first error.
pub open spec fn spec_with_stdlib(lib: Seq<char>, macros: Seq<char>) -> Result<SEnv, SError> {
    let (r1, st1) = spec_process_tokens(spec_lex(lib), 0, fresh_store(), top_fuel(), seq![]);
    match r1 {
        Err(e) => Err(e),
        Ok(_) => {
            let (r2, st2) = spec_process_tokens(spec_lex(macros), 0, st1, top_fuel(), seq![]);
            match r2 {
                Err(e) => Err(e),
                Ok(_) => Ok(st2),
            }
        },
    }
}

impl Env {
    /// A store whose global frame holds what the library source `lib` and then the macro
    /// source `macros` define.
    pub fn with_stdlib(lib: &str, macros: &str) -> (r: Result<Env, Error>)
        ensures
            match (r, spec_with_stdlib(lib@, macros@)) {
                (Ok(env), Ok(st)) => env.wf() && env@ == st,
                (Err(e), Err(se)) => e@ == se,
                _ => false,
            },
    {
        let mut env = Env::new();
        proof {
            assert(env@ =~= fresh_store());
        }
        match process(lib, Env::root(), &mut env) {
            Err(e) => {
                return Err(e);
            },
            Ok(_) => {},
        }
        match process(macros, Env::root(), &mut env) {
            Err(e) => Err(e),
            Ok(_) => Ok(env),
        }
    }
}

/// What evaluating the next expression of `toks` gives: nothing when no token is left;
/// else the parse error (and the tokens stay), or the value or error of the expression
/// (and the tokens after it are left).
pub open spec fn spec_cursor_next(toks: Seq<SToken>, env: nat, st: crate::eval::env::SEnv) -> (
    Option<Result<SVal, SError>>,
    Seq<SToken>,
    crate::eval::env::SEnv,
) {
    if toks.len() == 0 {
        (None, toks, st)
    } else {
        match spec_parse_expr(toks) {
            Err(e) => (Some(Err(SError::Parse(e))), toks, st),
            Ok((e, n)) => {
                let rest = toks.subrange(n as int, toks.len() as int);
                if !no_lone_quote(e) {
                    (Some(Err(SError::Eval(SEvalError::LoneQuoteAtom))), rest, st)
                } else {
                    let (r, st1) = spec_eval(spec_lower(e), env, st, top_fuel());
                    (Some(r), rest, st1)
                }
            },
        }
    }
}

/// Walks the expressions of a token slice, evaluating each in a frame.
#[derive(Clone, Copy)]
pub struct Cursor<'a> {
    working: &'a [Token<'a>],
    env: usize,
}

impl<'a> Cursor<'a> {
    /// The tokens not yet walked.
    pub closed spec fn remaining(&self) -> Seq<SToken> {
        tokens_view(self.working@)
    }

    /// The frame the expressions are evaluated in.
    pub closed spec fn frame(&self) -> nat {
        self.env as nat
    }

    pub fn new(working: &'a [Token<'a>], env: usize) -> (r: Self)
        ensures
            r.remaining() == tokens_view(working@),
            r.frame() == env as nat,
    {
        Self { working, env }
    }

    /// Evaluates the next expression; `None` once every token has been walked.
    pub fn next(&mut self, store: &mut Env) -> (r: Option<Result<Value, Error>>)
        requires
            old(store).wf(),
        ensures
            final(store).wf(),
            final(self).frame() == old(self).frame(),
            ({
                let (sr, rest, st) = spec_cursor_next(
                    old(self).remaining(),
                    old(self).frame(),
                    old(store)@,
                );
                &&& final(self).remaining() == rest
                &&& final(store)@ == st
                &&& match (r, sr) {
                    (None, None) => true,
                    (Some(x), Some(y)) => res_view(x) == y,
                    _ => false,
                }
            }),
    {
        if self.working.len() == 0 {
            return None;
        }
        let ghost tv = tokens_view(self.working@);
        match parse_expr(self.working) {
            Err(e) => Some(Err(Error::Parse(e))),
            Ok((ast, rest)) => {
                proof {
                    crate::parser::lemma_parse_consumes(tv);
                    let n = tv.len() - rest@.len();
                    lemma_views_subrange(self.working@, n, self.working@.len() as int);
                }
                self.working = rest;
                if !lone_quote_free(&ast) {
                    return Some(Err(Error::Eval(EvalError::LoneQuoteAtom)));
                }
                let expr = lower(&ast);
                Some(eval(expr, self.env, store))
            },
        }
    }
}

} // verus!
