//! Errors of evaluation, and the error type of the whole pipeline.
use vstd::prelude::*;

use crate::eval::env::BuiltinError;
use crate::eval::value::Form;
use crate::parser::ParseError;

verus! {

#[derive(Debug, Clone, PartialEq, Eq)]
pub enum EvalError {
    /// `require` needs exactly one argument; the count it saw (0, or 2 for "more than one").
    BadRequireArgCount(usize),
    /// `require` takes a string or a symbol.
    BadRequireArgs,
    /// `define` of a symbol needs exactly a name and a value.
    BadDefineArgs,
    /// `if` needs exactly a condition and two branches.
    BadIfArgs,
    /// The symbol is bound neither to a built-in nor in any enclosing frame.
    SymbolUndefined(String),
    /// `define` takes a symbol or a list as its head.
    BadDefineHead,
    /// A call gave a procedure the wrong number of arguments; the number of its parameters.
    BadFunctionArgCount(usize),
    /// `progn` needs at least one expression.
    EmptyPrognBody,
    /// `unquote` or `unquotesplicing` was evaluated outside a quasiquote.
    UnquoteOutsideQuasi,
    /// A variadic parameter (`name...`) must be the last parameter.
    VariadicArgsMustBeLast,
    /// The form needs a parameter list.
    BadCallableArgs(Form),
    /// A parameter list may only hold symbols.
    BadCallableArgsListType(Form),
    /// A named definition needs a name at the head of its parameter list.
    BadCallableHead(Form),
    /// The form needs a body.
    BadCallableBodyArgs(Form),
    /// `quote` and `quasiquote` need an argument.
    BadQuoteArgs,
    /// What `unquotesplicing` splices has to be a list.
    SpliceNotList,
    /// `set!` of a name that no enclosing frame binds.
    SetUndefined(String),
    /// `require` named a source that has not been registered.
    RequireUnavailable(String),
    /// A source holds a lone `"`, which is no atom.
    LoneQuoteAtom,
    /// The evaluation went deeper than its step budget.
    OutOfFuel,
    /// `getchar` or `getline` found no input left while more may still come.
    InputNeeded,
}

/// The error of any stage: parsing, evaluation, a built-in, or the paren check.
#[derive(Debug, Clone, PartialEq)]
pub enum Error {
    Parse(ParseError),
    Eval(EvalError),
    Builtin(BuiltinError),
    /// More closing than opening parens.
    UnbalancedParens,
}

/// The mathematical value of an evaluation error: names as char sequences.
pub enum SEvalError {
    BadRequireArgCount(usize),
    BadRequireArgs,
    BadDefineArgs,
    BadIfArgs,
    SymbolUndefined(Seq<char>),
    BadDefineHead,
    BadFunctionArgCount(usize),
    EmptyPrognBody,
    UnquoteOutsideQuasi,
    VariadicArgsMustBeLast,
    BadCallableArgs(Form),
    BadCallableArgsListType(Form),
    BadCallableHead(Form),
    BadCallableBodyArgs(Form),
    BadQuoteArgs,
    SpliceNotList,
    SetUndefined(Seq<char>),
    RequireUnavailable(Seq<char>),
    LoneQuoteAtom,
    OutOfFuel,
    InputNeeded,
}

pub enum SError {
    Parse(ParseError),
    Eval(SEvalError),
    Builtin(BuiltinError),
    UnbalancedParens,
}

impl View for EvalError {
    type V = SEvalError;

    open spec fn view(&self) -> SEvalError {
        match self {
            EvalError::BadRequireArgCount(n) => SEvalError::BadRequireArgCount(*n),
            EvalError::BadRequireArgs => SEvalError::BadRequireArgs,
            EvalError::BadDefineArgs => SEvalError::BadDefineArgs,
            EvalError::BadIfArgs => SEvalError::BadIfArgs,
            EvalError::SymbolUndefined(s) => SEvalError::SymbolUndefined(s@),
            EvalError::BadDefineHead => SEvalError::BadDefineHead,
            EvalError::BadFunctionArgCount(n) => SEvalError::BadFunctionArgCount(*n),
            EvalError::EmptyPrognBody => SEvalError::EmptyPrognBody,
            EvalError::UnquoteOutsideQuasi => SEvalError::UnquoteOutsideQuasi,
            EvalError::VariadicArgsMustBeLast => SEvalError::VariadicArgsMustBeLast,
            EvalError::BadCallableArgs(f) => SEvalError::BadCallableArgs(*f),
            EvalError::BadCallableArgsListType(f) => SEvalError::BadCallableArgsListType(*f),
            EvalError::BadCallableHead(f) => SEvalError::BadCallableHead(*f),
            EvalError::BadCallableBodyArgs(f) => SEvalError::BadCallableBodyArgs(*f),
            EvalError::BadQuoteArgs => SEvalError::BadQuoteArgs,
            EvalError::SpliceNotList => SEvalError::SpliceNotList,
            EvalError::SetUndefined(s) => SEvalError::SetUndefined(s@),
            EvalError::RequireUnavailable(s) => SEvalError::RequireUnavailable(s@),
            EvalError::LoneQuoteAtom => SEvalError::LoneQuoteAtom,
            EvalError::OutOfFuel => SEvalError::OutOfFuel,
            EvalError::InputNeeded => SEvalError::InputNeeded,
        }
    }
}

impl View for Error {
    type V = SError;

    open spec fn view(&self) -> SError {
        match self {
            Error::Parse(e) => SError::Parse(*e),
            Error::Eval(e) => SError::Eval(e@),
            Error::Builtin(e) => SError::Builtin(*e),
            Error::UnbalancedParens => SError::UnbalancedParens,
        }
    }
}

impl Error {
    /// The evaluation error this is, if it is one.
    pub fn as_eval(&self) -> (r: Option<&EvalError>)
        ensures
            match self {
                Error::Eval(e) => r == Some(e),
                _ => r is None,
            },
    {
        match self {
            Error::Eval(e) => Some(e),
            _ => None,
        }
    }

    /// The built-in error this is, if it is one.
    pub fn as_builtin(&self) -> (r: Option<&BuiltinError>)
        ensures
            match self {
                Error::Builtin(e) => r == Some(e),
                _ => r is None,
            },
    {
        match self {
            Error::Builtin(e) => Some(e),
            _ => None,
        }
    }
}

} // verus!
