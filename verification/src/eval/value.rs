//! Runtime values: atoms, cons cells, special-form markers and callables.
use std::rc::Rc;
use vstd::prelude::*;

use crate::eval::num::{is_zero, num_is_zero};
use crate::text::{clone_strings, str_eq, strings_view};

verus! {

/// The special forms.
#[derive(Debug, Clone, Copy, PartialEq, Eq)]
pub enum Form {
    If,
    Eval,
    Require,
    Quote,
    QuasiQuote,
    UnQuote,
    UnQuoteSplicing,
    Define,
    DefineMacro,
    Lambda,
    Progn,
}

/// The built-in procedures.
#[derive(Debug, Clone, Copy, PartialEq, Eq)]
pub enum BuiltinFn {
    Add,
    Mul,
    Min,
    Div,
    Lt,
    Modulo,
    Eq,
    And,
    Or,
    Not,
    Cons,
    Car,
    Cdr,
    List,
    Append,
    IsAtom,
    IsNumber,
    IsSymbol,
    IsString,
    IsChar,
    IsNull,
    IsPair,
    MakeChar,
    Print,
    GetChar,
    GetLine,
    StringLength,
    StringRef,
    Substring,
    StringAppend,
    StringToList,
    StringToNum,
    ListToString,
}

/// A value. Numbers are IEEE-754 binary64 values held by their bit pattern; closures
/// hold the index of the environment frame they were made in.
#[derive(Debug, Clone, PartialEq)]
pub enum Value {
    Nil,
    Bool(bool),
    Num(u64),
    Char(u8),
    Symbol(String),
    Form(Form),
    Str(String),
    Cons(Rc<(Value, Value)>),
    Builtin(BuiltinFn, String),
    Macro { name: String, args: Vec<String>, body: Rc<Value> },
    Func { name: String, args: Vec<String>, body: Rc<Value>, env: usize },
    Lambda { args: Vec<String>, body: Rc<Value>, env: usize },
}

/// The mathematical value of a `Value`: strings as char sequences.
pub enum SVal {
    Nil,
    Bool(bool),
    Num(u64),
    Char(u8),
    Symbol(Seq<char>),
    Form(Form),
    Str(Seq<char>),
    Cons(Box<SVal>, Box<SVal>),
    Builtin(BuiltinFn, Seq<char>),
    Macro { name: Seq<char>, args: Seq<Seq<char>>, body: Box<SVal> },
    Func { name: Seq<char>, args: Seq<Seq<char>>, body: Box<SVal>, env: nat },
    Lambda { args: Seq<Seq<char>>, body: Box<SVal>, env: nat },
}

pub open spec fn value_view(v: Value) -> SVal
    decreases v,
{
    match v {
        Value::Nil => SVal::Nil,
        Value::Bool(b) => SVal::Bool(b),
        Value::Num(n) => SVal::Num(n),
        Value::Char(c) => SVal::Char(c),
        Value::Symbol(s) => SVal::Symbol(s@),
        Value::Form(f) => SVal::Form(f),
        Value::Str(s) => SVal::Str(s@),
        Value::Cons(p) => SVal::Cons(Box::new(value_view(p.0)), Box::new(value_view(p.1))),
        Value::Builtin(f, n) => SVal::Builtin(f, n@),
        Value::Macro { name, args, body } => SVal::Macro {
            name: name@,
            args: strings_view(args@),
            body: Box::new(value_view(*body)),
        },
        Value::Func { name, args, body, env } => SVal::Func {
            name: name@,
            args: strings_view(args@),
            body: Box::new(value_view(*body)),
            env: env as nat,
        },
        Value::Lambda { args, body, env } => SVal::Lambda {
            args: strings_view(args@),
            body: Box::new(value_view(*body)),
            env: env as nat,
        },
    }
}

impl View for Value {
    type V = SVal;

    open spec fn view(&self) -> SVal {
        value_view(*self)
    }
}

/// The number of cons cells and leaves in a value, taken as a tree of cons cells.
pub open spec fn sval_size(v: SVal) -> nat
    decreases v,
{
    match v {
        SVal::Cons(h, t) => 1 + sval_size(*h) + sval_size(*t),
        _ => 1,
    }
}

/// A cons cell.
pub open spec fn scons(h: SVal, t: SVal) -> SVal {
    SVal::Cons(Box::new(h), Box::new(t))
}

/// The list of the given items, ending in `Nil`.
pub open spec fn slist(items: Seq<SVal>) -> SVal
    decreases items.len(),
{
    if items.len() == 0 {
        SVal::Nil
    } else {
        scons(items[0], slist(items.subrange(1, items.len() as int)))
    }
}

/// The items of a chain of cons cells, up to the first value that is not a cons cell.
pub open spec fn list_items(v: SVal) -> Seq<SVal>
    decreases v,
{
    match v {
        SVal::Cons(h, t) => seq![*h].add(list_items(*t)),
        _ => seq![],
    }
}

/// The value that ends a chain of cons cells.
pub open spec fn list_end(v: SVal) -> SVal
    decreases v,
{
    match v {
        SVal::Cons(_, t) => list_end(*t),
        _ => v,
    }
}

/// A proper list: a chain of cons cells ending in `Nil`.
pub open spec fn is_proper_list(v: SVal) -> bool {
    list_end(v) is Nil
}

/// Truthiness: `nil`, `#f`, the zeros and the empty string are false.
pub open spec fn spec_truthy(v: SVal) -> bool {
    match v {
        SVal::Nil => false,
        SVal::Bool(b) => b,
        SVal::Num(n) => !is_zero(n),
        SVal::Str(s) => s.len() != 0,
        _ => true,
    }
}

/// The form an atom names.
pub open spec fn form_of(s: Seq<char>) -> Option<Form> {
    if s == "if"@ {
        Some(Form::If)
    } else if s == "require"@ {
        Some(Form::Require)
    } else if s == "eval"@ {
        Some(Form::Eval)
    } else if s == "progn"@ {
        Some(Form::Progn)
    } else if s == "quote"@ || s == "'"@ {
        Some(Form::Quote)
    } else if s == "quasiquote"@ || s == "`"@ {
        Some(Form::QuasiQuote)
    } else if s == "unquote"@ || s == ","@ {
        Some(Form::UnQuote)
    } else if s == "unquotesplicing"@ {
        Some(Form::UnQuoteSplicing)
    } else if s == "define"@ || s == "def"@ {
        Some(Form::Define)
    } else if s == "defmacro"@ || s == "defm"@ || s == "define-macro"@ {
        Some(Form::DefineMacro)
    } else if s == "lambda"@ || s == "lamda"@ || s == ".\\"@ {
        Some(Form::Lambda)
    } else {
        None
    }
}

impl Form {
    /// The form an atom names, if any.
    pub fn try_parse(s: &str) -> (r: Option<Form>)
        ensures
            r == form_of(s@),
    {
        if str_eq(s, "if") {
            Some(Form::If)
        } else if str_eq(s, "require") {
            Some(Form::Require)
        } else if str_eq(s, "eval") {
            Some(Form::Eval)
        } else if str_eq(s, "progn") {
            Some(Form::Progn)
        } else if str_eq(s, "quote") || str_eq(s, "'") {
            Some(Form::Quote)
        } else if str_eq(s, "quasiquote") || str_eq(s, "`") {
            Some(Form::QuasiQuote)
        } else if str_eq(s, "unquote") || str_eq(s, ",") {
            Some(Form::UnQuote)
        } else if str_eq(s, "unquotesplicing") {
            Some(Form::UnQuoteSplicing)
        } else if str_eq(s, "define") || str_eq(s, "def") {
            Some(Form::Define)
        } else if str_eq(s, "defmacro") || str_eq(s, "defm") || str_eq(s, "define-macro") {
            Some(Form::DefineMacro)
        } else if str_eq(s, "lambda") || str_eq(s, "lamda") || str_eq(s, ".\\") {
            Some(Form::Lambda)
        } else {
            None
        }
    }
}

/// A cons cell holding `h` and `t`.
pub fn cons(h: Value, t: Value) -> (r: Value)
    ensures
        r@ == scons(h@, t@),
{
    Value::Cons(Rc::new((h, t)))
}

impl Value {
    /// A copy of this value.
    pub fn dup(&self) -> (r: Value)
        ensures
            r@ == self@,
    {
        match self {
            Value::Nil => Value::Nil,
            Value::Bool(b) => Value::Bool(*b),
            Value::Num(n) => Value::Num(*n),
            Value::Char(c) => Value::Char(*c),
            Value::Symbol(s) => Value::Symbol(s.clone()),
            Value::Form(f) => Value::Form(*f),
            Value::Str(s) => Value::Str(s.clone()),
            Value::Cons(p) => Value::Cons(Rc::clone(p)),
            Value::Builtin(f, n) => Value::Builtin(*f, n.clone()),
            Value::Macro { name, args, body } => Value::Macro {
                name: name.clone(),
                args: clone_strings(args),
                body: Rc::clone(body),
            },
            Value::Func { name, args, body, env } => Value::Func {
                name: name.clone(),
                args: clone_strings(args),
                body: Rc::clone(body),
                env: *env,
            },
            Value::Lambda { args, body, env } => Value::Lambda {
                args: clone_strings(args),
                body: Rc::clone(body),
                env: *env,
            },
        }
    }

    /// Whether this value counts as true in a condition.
    pub fn truthy(&self) -> (r: bool)
        ensures
            r == spec_truthy(self@),
    {
        match self {
            Value::Nil => false,
            Value::Bool(val) => *val,
            Value::Num(n) => !num_is_zero(*n),
            Value::Str(s) => s.as_str().unicode_len() != 0,
            _ => true,
        }
    }

    /// The list holding the given values in order.
    pub fn to_cons_list(list: Vec<Value>) -> (r: Value)
        ensures
            r@ == slist(list@.map_values(|v: Value| v@)),
    {
        let ghost items = list@.map_values(|v: Value| v@);
        let mut list = list;
        let mut rv = Value::Nil;
        proof {
            assert(items.subrange(items.len() as int, items.len() as int) =~= seq![]);
        }
        while list.len() > 0
            invariant
                list@.len() <= items.len(),
                forall|i: int| 0 <= i < list@.len() ==> #[trigger] list@[i]@ == items[i],
                rv@ == slist(items.subrange(list@.len() as int, items.len() as int)),
            decreases list@.len(),
        {
            let ghost k = list@.len() - 1;
            let v = list.pop().unwrap();
            proof {
                let rest = items.subrange(k + 1, items.len() as int);
                let here = items.subrange(k, items.len() as int);
                assert(here[0] == items[k]);
                assert(here.subrange(1, here.len() as int) =~= rest);
            }
            rv = cons(v, rv);
        }
        proof {
            assert(items.subrange(0, items.len() as int) =~= items);
        }
        rv
    }

    /// A walker over the items of this list.
    pub fn to_cons_iter(&self) -> (r: ConsIter<'_>)
        ensures
            r.current == self,
    {
        ConsIter::new(self)
    }
}

/// Walks the items of a chain of cons cells.
pub struct ConsIter<'a> {
    pub current: &'a Value,
}

impl<'a> ConsIter<'a> {
    pub fn new(current: &'a Value) -> (r: Self)
        ensures
            r.current == current,
    {
        Self { current }
    }

    /// The rest of the chain, which the walker then gives up.
    pub fn into_cons_list(&mut self) -> (r: &'a Value)
        ensures
            r == old(self).current,
            final(self).current@ == SVal::Nil,
    {
        let cons = self.current;
        self.current = &NIL;
        cons
    }

    /// Whether no item is left.
    pub fn is_empty(&self) -> (r: bool)
        ensures
            r == !(self.current@ is Cons),
    {
        !matches!(self.current, Value::Cons(_))
    }

    /// The next item, if the chain goes on.
    pub fn next(&mut self) -> (r: Option<&'a Value>)
        ensures
            match old(self).current@ {
                SVal::Cons(h, t) => r matches Some(v) && v@ == *h && final(self).current@ == *t,
                _ => r is None && final(self).current == old(self).current,
            },
    {
        match self.current {
            Value::Cons(pair) => {
                let p: &'a (Value, Value) = &**pair;
                self.current = &p.1;
                Some(&p.0)
            },
            _ => None,
        }
    }
}

/// The value a built-in's result stands for.
pub open spec fn bview<E>(r: Result<Value, E>) -> Result<SVal, E> {
    match r {
        Ok(v) => Ok(v@),
        Err(e) => Err(e),
    }
}

/// The value `nil`.
pub const NIL: Value = Value::Nil;

} // verus!
