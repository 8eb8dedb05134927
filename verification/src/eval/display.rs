//! The printed form of a value, as a sequence of pieces: text, and numbers, which the
//! caller writes in decimal.
use vstd::prelude::*;
use vstd::string::*;

use crate::eval::value::{sval_size, Form, SVal, Value};
use crate::text::{owned, strings_view};

verus! {

broadcast use vstd::string::group_string_axioms;

/// A piece of printed text: text as it stands, or a number (by its bits) to be written in
/// decimal.
#[derive(Clone)]
pub enum Piece {
    Text(String),
    Num(u64),
}

impl Piece {
    /// A copy of this piece.
    pub fn clone_piece(&self) -> (r: Piece)
        ensures
            piece_view(r) == piece_view(*self),
    {
        match self {
            Piece::Text(s) => Piece::Text(owned(s.as_str())),
            Piece::Num(n) => Piece::Num(*n),
        }
    }
}

/// The mathematical value of a piece.
pub enum SPiece {
    Text(Seq<char>),
    Num(u64),
}

pub open spec fn piece_view(p: Piece) -> SPiece {
    match p {
        Piece::Text(s) => SPiece::Text(s@),
        Piece::Num(n) => SPiece::Num(n),
    }
}

pub open spec fn pieces_view(s: Seq<Piece>) -> Seq<SPiece> {
    s.map_values(|p: Piece| piece_view(p))
}

/// The name of a form, as its variant is called.
pub open spec fn form_name(f: Form) -> Seq<char> {
    match f {
        Form::If => "If"@,
        Form::Eval => "Eval"@,
        Form::Require => "Require"@,
        Form::Quote => "Quote"@,
        Form::QuasiQuote => "QuasiQuote"@,
        Form::UnQuote => "UnQuote"@,
        Form::UnQuoteSplicing => "UnQuoteSplicing"@,
        Form::Define => "Define"@,
        Form::DefineMacro => "DefineMacro"@,
        Form::Lambda => "Lambda"@,
        Form::Progn => "Progn"@,
    }
}

/// The names joined by single spaces.
pub open spec fn join_names(s: Seq<Seq<char>>) -> Seq<char>
    decreases s.len(),
{
    if s.len() == 0 {
        Seq::empty()
    } else if s.len() == 1 {
        s[0]
    } else {
        s[0] + " "@ + join_names(s.subrange(1, s.len() as int))
    }
}

/// The printed form of a value: `nil`, `#t` and `#f`; numbers; a char between single
/// quotes; a symbol after a colon; a form by its name; a string as it is; a list as `'(`,
/// its items separated by spaces (the end of an improper list last), `)`; procedures by
/// their kind, name and parameters.
pub open spec fn spec_display(v: SVal) -> Seq<SPiece>
    decreases v, 0nat,
{
    match v {
        SVal::Nil => seq![SPiece::Text("nil"@)],
        SVal::Bool(b) => seq![SPiece::Text(if b { "#t"@ } else { "#f"@ })],
        SVal::Num(n) => seq![SPiece::Num(n)],
        SVal::Char(c) => seq![SPiece::Text("'"@ + seq![c as char] + "'"@)],
        SVal::Symbol(s) => seq![SPiece::Text(":"@ + s)],
        SVal::Form(f) => seq![SPiece::Text(form_name(f))],
        SVal::Str(s) => seq![SPiece::Text(s)],
        SVal::Cons(h, t) => seq![SPiece::Text("'("@)] + spec_display(*h) + display_tail(*t) + seq![
            SPiece::Text(")"@),
        ],
        SVal::Builtin(_, name) => seq![SPiece::Text("built-in: "@ + name + " (...) {...}"@)],
        SVal::Func { name, args, .. } => seq![
            SPiece::Text("func: "@ + name + " ("@ + join_names(args) + ") {...}"@),
        ],
        SVal::Macro { name, args, .. } => seq![
            SPiece::Text("macro: "@ + name + " ("@ + join_names(args) + ") {...}"@),
        ],
        SVal::Lambda { args, .. } => seq![
            SPiece::Text("lambda: ("@ + join_names(args) + ") {...}"@),
        ],
    }
}

/// The printed form of the rest of a list after its first item.
pub open spec fn display_tail(t: SVal) -> Seq<SPiece>
    decreases t, 1nat,
{
    match t {
        SVal::Nil => Seq::empty(),
        SVal::Cons(h, t2) => seq![SPiece::Text(" "@)] + spec_display(*h) + display_tail(*t2),
        _ => seq![SPiece::Text(" "@)] + spec_display(t),
    }
}

/// Calls `<char as ToString>::to_string`, which gives the string of that one char.
#[verifier::external_body]
pub(crate) fn char_text(c: char) -> (r: String)
    ensures
        r@ == seq![c],
{
    c.to_string()
}

/// The names joined by single spaces.
fn join(names: &Vec<String>) -> (r: String)
    ensures
        r@ == join_names(strings_view(names@)),
{
    let ghost s = strings_view(names@);
    let mut out = String::new();
    let mut i: usize = names.len();
    // Built from the back: `out` holds the names from `i` on.
    if i == 0 {
        return out;
    }
    i = i - 1;
    out.append(names[i].as_str());
    proof {
        assert(s.subrange(i as int, s.len() as int).len() == 1);
        assert(s.subrange(i as int, s.len() as int)[0] == s[i as int]);
    }
    while i > 0
        invariant
            i < names@.len(),
            s == strings_view(names@),
            out@ == join_names(s.subrange(i as int, s.len() as int)),
        decreases i,
    {
        i = i - 1;
        let mut next = owned(names[i].as_str());
        next.append(" ");
        next.append(out.as_str());
        proof {
            let here = s.subrange(i as int, s.len() as int);
            assert(here[0] == s[i as int]);
            assert(here.subrange(1, here.len() as int) =~= s.subrange(i + 1, s.len() as int));
        }
        out = next;
    }
    proof {
        assert(s.subrange(0, s.len() as int) =~= s);
    }
    out
}

fn text(out: &mut Vec<Piece>, s: String)
    ensures
        pieces_view(final(out)@) == pieces_view(old(out)@).push(SPiece::Text(s@)),
{
    out.push(Piece::Text(s));
    proof {
        assert(pieces_view(out@) =~= pieces_view(old(out)@).push(SPiece::Text(s@)));
    }
}

/// Appends the printed form of `v` to `out`.
fn display_into(v: &Value, out: &mut Vec<Piece>)
    ensures
        pieces_view(final(out)@) == pieces_view(old(out)@) + spec_display(v@),
    decreases sval_size(v@),
{
    let ghost start = pieces_view(out@);
    match v {
        Value::Nil => text(out, owned("nil")),
        Value::Bool(b) => text(out, owned(if *b { "#t" } else { "#f" })),
        Value::Num(n) => {
            out.push(Piece::Num(*n));
            proof {
                assert(pieces_view(out@) =~= start.push(SPiece::Num(*n)));
            }
        },
        Value::Char(c) => {
            let mut s = owned("'");
            s.append(char_text(*c as char).as_str());
            s.append("'");
            text(out, s);
        },
        Value::Symbol(s) => {
            let mut t = owned(":");
            t.append(s.as_str());
            text(out, t);
        },
        Value::Form(f) => text(out, owned(form_text(*f))),
        Value::Str(s) => text(out, owned(s.as_str())),
        Value::Cons(pair) => {
            proof {
                assert(v@ == crate::eval::value::scons(pair.0@, pair.1@));
            }
            text(out, owned("'("));
            display_into(&pair.0, out);
            let mut hold: &Value = &pair.1;
            let ghost target = start + seq![SPiece::Text("'("@)] + spec_display(pair.0@)
                + display_tail(pair.1@);
            loop
                invariant_except_break
                    pieces_view(out@) + display_tail(hold@) == target,
                invariant
                    sval_size(hold@) < sval_size(v@),
                ensures
                    pieces_view(out@) == target,
                decreases sval_size(hold@),
            {
                match hold {
                    Value::Cons(p) => {
                        proof {
                            assert(hold@ == crate::eval::value::scons(p.0@, p.1@));
                        }
                        let ghost before = pieces_view(out@);
                        text(out, owned(" "));
                        display_into(&p.0, out);
                        proof {
                            assert(before + display_tail(hold@) =~= pieces_view(out@)
                                + display_tail(p.1@));
                        }
                        hold = &p.1;
                    },
                    Value::Nil => {
                        assert(pieces_view(out@) + display_tail(hold@) =~= pieces_view(out@));
                        break ;
                    },
                    _ => {
                        let ghost before = pieces_view(out@);
                        text(out, owned(" "));
                        display_into(hold, out);
                        proof {
                            assert(before + display_tail(hold@) =~= pieces_view(out@));
                        }
                        break ;
                    },
                }
            }
            text(out, owned(")"));
        },
        Value::Builtin(_, name) => {
            let mut t = owned("built-in: ");
            t.append(name.as_str());
            t.append(" (...) {...}");
            text(out, t);
        },
        Value::Func { name, args, .. } => {
            let mut t = owned("func: ");
            t.append(name.as_str());
            t.append(" (");
            t.append(join(args).as_str());
            t.append(") {...}");
            text(out, t);
        },
        Value::Macro { name, args, .. } => {
            let mut t = owned("macro: ");
            t.append(name.as_str());
            t.append(" (");
            t.append(join(args).as_str());
            t.append(") {...}");
            text(out, t);
        },
        Value::Lambda { args, .. } => {
            let mut t = owned("lambda: (");
            t.append(join(args).as_str());
            t.append(") {...}");
            text(out, t);
        },
    }
}

/// The name of a form.
fn form_text(f: Form) -> (r: &'static str)
    ensures
        r@ == form_name(f),
{
    match f {
        Form::If => "If",
        Form::Eval => "Eval",
        Form::Require => "Require",
        Form::Quote => "Quote",
        Form::QuasiQuote => "QuasiQuote",
        Form::UnQuote => "UnQuote",
        Form::UnQuoteSplicing => "UnQuoteSplicing",
        Form::Define => "Define",
        Form::DefineMacro => "DefineMacro",
        Form::Lambda => "Lambda",
        Form::Progn => "Progn",
    }
}

impl Value {
    /// The printed form of this value.
    pub fn display_pieces(&self) -> (r: Vec<Piece>)
        ensures
            pieces_view(r@) == spec_display(self@),
    {
        let mut out: Vec<Piece> = Vec::new();
        proof {
            assert(pieces_view(out@) =~= Seq::<SPiece>::empty());
        }
        display_into(self, &mut out);
        proof {
            assert(Seq::<SPiece>::empty() + spec_display(self@) =~= spec_display(self@));
        }
        out
    }
}

} // verus!
