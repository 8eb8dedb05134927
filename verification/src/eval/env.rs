//! Environments: a store of frames, each binding names to values and linked to the
//! frame it was made in. Closures refer to frames by index, so a frame lives as long as
//! the store. Built-in procedures are found by name before any frame is searched.
use vstd::prelude::*;

use crate::eval::error::{EvalError, SEvalError};
use crate::eval::builtins::list::items_of;
use crate::eval::builtins::string::{char_value, latin1};
use crate::eval::display::{char_text, piece_view, pieces_view, spec_display, Piece, SPiece};
use crate::eval::error::{Error, SError};
use crate::eval::value::list_items;
use crate::text::chars_of;
use crate::eval::value::{BuiltinFn, SVal, Value};
use crate::text::{owned, str_eq};

verus! {

#[derive(Debug, Clone, Copy, PartialEq, Eq)]
pub enum BuiltinError {
    /// `not` takes exactly one argument.
    WrongNotArgCount,
    /// `cons` takes exactly two arguments.
    WrongConsArgCount,
    /// `car` takes exactly one argument.
    WrongCarArgCount,
    /// `car` must be applied to a list.
    WrongCarArgType,
    /// `cdr` takes exactly one argument.
    WrongCdrArgCount,
    /// `cdr` must be applied to a list.
    WrongCdrArgType,
    /// `cdr` of the empty list.
    CdrOnEmptyList,
    /// An arithmetic built-in was given something other than a number.
    ExpectedNumArg,
    /// `-` needs a first argument.
    NoInitforMinus,
    /// `<` needs a first argument.
    BadLtArgTypes,
    /// `/` (and `*` given no argument list) needs a first argument.
    NoInitforDiv,
    /// `car` of the empty list.
    CarOnEmptyList,
    /// `%` takes numbers.
    BadModArgTypes,
    /// `%` takes exactly two arguments.
    BadModArgCount,
    /// `=` takes exactly two arguments.
    BadEqArgCount,
    /// The built-in needs at least one (or, for `=` and `%`, two) arguments.
    NotAnArgList,
    /// The predicate takes exactly one argument.
    OnlyOneArg,
    /// `append` takes exactly two arguments.
    WrongAppendArgCount,
    /// The first argument of `append` must be a list.
    AppendNotAList,
    /// `char` takes exactly one argument.
    WrongCharArgCount,
    /// `char` takes an integer from 0 to 255, or a one-char string or symbol.
    BadCharArg,
    /// The string built-in was given the wrong number of arguments.
    WrongStringArgCount,
    /// The string built-in was given an argument of the wrong kind, an index out of range,
    /// or a char above 255 where a char value is made.
    BadStringArg,
    /// `getchar` and `getline` take no arguments.
    NoArgsExpected,
}

/// The built-in a name stands for.
pub open spec fn builtin_named(s: Seq<char>) -> Option<BuiltinFn> {
    if s == "+"@ {
        Some(BuiltinFn::Add)
    } else if s == "*"@ {
        Some(BuiltinFn::Mul)
    } else if s == "-"@ {
        Some(BuiltinFn::Min)
    } else if s == "/"@ {
        Some(BuiltinFn::Div)
    } else if s == "<"@ {
        Some(BuiltinFn::Lt)
    } else if s == "%"@ {
        Some(BuiltinFn::Modulo)
    } else if s == "="@ {
        Some(BuiltinFn::Eq)
    } else if s == "&&"@ {
        Some(BuiltinFn::And)
    } else if s == "||"@ {
        Some(BuiltinFn::Or)
    } else if s == "not"@ {
        Some(BuiltinFn::Not)
    } else if s == "cons"@ {
        Some(BuiltinFn::Cons)
    } else if s == "car"@ {
        Some(BuiltinFn::Car)
    } else if s == "cdr"@ {
        Some(BuiltinFn::Cdr)
    } else if s == "list"@ {
        Some(BuiltinFn::List)
    } else if s == "append"@ {
        Some(BuiltinFn::Append)
    } else if s == "atom?"@ {
        Some(BuiltinFn::IsAtom)
    } else if s == "number?"@ {
        Some(BuiltinFn::IsNumber)
    } else if s == "symbol?"@ {
        Some(BuiltinFn::IsSymbol)
    } else if s == "string?"@ {
        Some(BuiltinFn::IsString)
    } else if s == "char?"@ {
        Some(BuiltinFn::IsChar)
    } else if s == "null?"@ {
        Some(BuiltinFn::IsNull)
    } else if s == "pair?"@ {
        Some(BuiltinFn::IsPair)
    } else if s == "char"@ {
        Some(BuiltinFn::MakeChar)
    } else if s == "print"@ {
        Some(BuiltinFn::Print)
    } else if s == "getchar"@ {
        Some(BuiltinFn::GetChar)
    } else if s == "getline"@ {
        Some(BuiltinFn::GetLine)
    } else if s == "string-length"@ {
        Some(BuiltinFn::StringLength)
    } else if s == "string-ref"@ {
        Some(BuiltinFn::StringRef)
    } else if s == "substring"@ {
        Some(BuiltinFn::Substring)
    } else if s == "string-append"@ {
        Some(BuiltinFn::StringAppend)
    } else if s == "string->list"@ {
        Some(BuiltinFn::StringToList)
    } else if s == "string->num"@ {
        Some(BuiltinFn::StringToNum)
    } else if s == "list->string"@ {
        Some(BuiltinFn::ListToString)
    } else {
        None
    }
}

/// The built-in a name stands for, if any.
pub fn builtin_for(s: &str) -> (r: Option<BuiltinFn>)
    ensures
        r == builtin_named(s@),
{
    if str_eq(s, "+") {
        Some(BuiltinFn::Add)
    } else if str_eq(s, "*") {
        Some(BuiltinFn::Mul)
    } else if str_eq(s, "-") {
        Some(BuiltinFn::Min)
    } else if str_eq(s, "/") {
        Some(BuiltinFn::Div)
    } else if str_eq(s, "<") {
        Some(BuiltinFn::Lt)
    } else if str_eq(s, "%") {
        Some(BuiltinFn::Modulo)
    } else if str_eq(s, "=") {
        Some(BuiltinFn::Eq)
    } else if str_eq(s, "&&") {
        Some(BuiltinFn::And)
    } else if str_eq(s, "||") {
        Some(BuiltinFn::Or)
    } else if str_eq(s, "not") {
        Some(BuiltinFn::Not)
    } else if str_eq(s, "cons") {
        Some(BuiltinFn::Cons)
    } else if str_eq(s, "car") {
        Some(BuiltinFn::Car)
    } else if str_eq(s, "cdr") {
        Some(BuiltinFn::Cdr)
    } else if str_eq(s, "list") {
        Some(BuiltinFn::List)
    } else if str_eq(s, "append") {
        Some(BuiltinFn::Append)
    } else if str_eq(s, "atom?") {
        Some(BuiltinFn::IsAtom)
    } else if str_eq(s, "number?") {
        Some(BuiltinFn::IsNumber)
    } else if str_eq(s, "symbol?") {
        Some(BuiltinFn::IsSymbol)
    } else if str_eq(s, "string?") {
        Some(BuiltinFn::IsString)
    } else if str_eq(s, "char?") {
        Some(BuiltinFn::IsChar)
    } else if str_eq(s, "null?") {
        Some(BuiltinFn::IsNull)
    } else if str_eq(s, "pair?") {
        Some(BuiltinFn::IsPair)
    } else if str_eq(s, "char") {
        Some(BuiltinFn::MakeChar)
    } else if str_eq(s, "print") {
        Some(BuiltinFn::Print)
    } else if str_eq(s, "getchar") {
        Some(BuiltinFn::GetChar)
    } else if str_eq(s, "getline") {
        Some(BuiltinFn::GetLine)
    } else if str_eq(s, "string-length") {
        Some(BuiltinFn::StringLength)
    } else if str_eq(s, "string-ref") {
        Some(BuiltinFn::StringRef)
    } else if str_eq(s, "substring") {
        Some(BuiltinFn::Substring)
    } else if str_eq(s, "string-append") {
        Some(BuiltinFn::StringAppend)
    } else if str_eq(s, "string->list") {
        Some(BuiltinFn::StringToList)
    } else if str_eq(s, "string->num") {
        Some(BuiltinFn::StringToNum)
    } else if str_eq(s, "list->string") {
        Some(BuiltinFn::ListToString)
    } else {
        None
    }
}

/// A frame: its bindings and the frame it was made in.
#[derive(Clone)]
pub struct Frame {
    vars: Vec<(String, Value)>,
    parent: Option<usize>,
}

/// A store of frames, and the sources `require` may load, by name.
#[derive(Clone)]
pub struct Env {
    frames: Vec<Frame>,
    sources: Vec<(String, String)>,
    input: Vec<char>,
    input_pos: usize,
    input_closed: bool,
    output: Vec<Piece>,
}

/// The mathematical value of a frame.
pub struct SFrame {
    pub vars: Map<Seq<char>, SVal>,
    pub parent: Option<nat>,
}

/// The mathematical value of a store.
pub struct SEnv {
    pub frames: Seq<SFrame>,
    pub sources: Map<Seq<char>, Seq<char>>,
    /// The input not yet read by `getchar` and `getline`.
    pub input: Seq<char>,
    /// Whether more input may still come.
    pub input_closed: bool,
    /// What `print` wrote and the caller has not taken yet.
    pub output: Seq<SPiece>,
}

/// The map an association list stands for: a later binding of a name wins.
pub open spec fn map_of(s: Seq<(String, Value)>) -> Map<Seq<char>, SVal>
    decreases s.len(),
{
    if s.len() == 0 {
        Map::empty()
    } else {
        map_of(s.drop_last()).insert(s.last().0@, s.last().1@)
    }
}

pub open spec fn sources_of(s: Seq<(String, String)>) -> Map<Seq<char>, Seq<char>>
    decreases s.len(),
{
    if s.len() == 0 {
        Map::empty()
    } else {
        sources_of(s.drop_last()).insert(s.last().0@, s.last().1@)
    }
}

pub open spec fn unique_keys<V>(s: Seq<(String, V)>) -> bool {
    forall|i: int, j: int| 0 <= i < j < s.len() ==> s[i].0@ != s[j].0@
}

impl View for Frame {
    type V = SFrame;

    closed spec fn view(&self) -> SFrame {
        SFrame {
            vars: map_of(self.vars@),
            parent: match self.parent {
                Some(p) => Some(p as nat),
                None => None,
            },
        }
    }
}

impl View for Env {
    type V = SEnv;

    closed spec fn view(&self) -> SEnv {
        SEnv {
            frames: self.frames@.map_values(|f: Frame| f@),
            sources: sources_of(self.sources@),
            input: self.input@.subrange(self.input_pos as int, self.input@.len() as int),
            input_closed: self.input_closed,
            output: pieces_view(self.output@),
        }
    }
}

proof fn lemma_map_of_index(s: Seq<(String, Value)>, i: int)
    requires
        unique_keys(s),
        0 <= i < s.len(),
    ensures
        map_of(s).contains_key(s[i].0@),
        map_of(s)[s[i].0@] == s[i].1@,
    decreases s.len(),
{
    if i < s.len() - 1 {
        lemma_map_of_index(s.drop_last(), i);
    }
}

proof fn lemma_map_of_absent(s: Seq<(String, Value)>, k: Seq<char>)
    requires
        forall|i: int| 0 <= i < s.len() ==> s[i].0@ != k,
    ensures
        !map_of(s).contains_key(k),
    decreases s.len(),
{
    if s.len() > 0 {
        lemma_map_of_absent(s.drop_last(), k);
    }
}

proof fn lemma_map_of_update(s: Seq<(String, Value)>, i: int, p: (String, Value))
    requires
        unique_keys(s),
        0 <= i < s.len(),
        p.0@ == s[i].0@,
    ensures
        map_of(s.update(i, p)) == map_of(s).insert(p.0@, p.1@),
        unique_keys(s.update(i, p)),
    decreases s.len(),
{
    let t = s.update(i, p);
    if i == s.len() - 1 {
        assert(t.drop_last() =~= s.drop_last());
        assert(map_of(t) =~= map_of(s).insert(p.0@, p.1@));
    } else {
        lemma_map_of_update(s.drop_last(), i, p);
        assert(t.drop_last() =~= s.drop_last().update(i, p));
        assert(map_of(t) =~= map_of(s).insert(p.0@, p.1@));
    }
}

pub closed spec fn frame_wf(f: Frame, index: int) -> bool {
    &&& unique_keys(f.vars@)
    &&& f.parent matches Some(p) ==> p < index
}

/// The frame the given frame was made in, if it was made in an earlier one.
pub open spec fn parent_of(st: SEnv, frame: nat) -> Option<nat> {
    match st.frames[frame as int].parent {
        Some(p) => if p < frame {
            Some(p)
        } else {
            None
        },
        None => None,
    }
}

/// The value bound to `name` in `frame` or, failing that, in the frames it was made in.
pub open spec fn spec_lookup(st: SEnv, frame: nat, name: Seq<char>) -> Option<SVal>
    decreases frame,
{
    if frame >= st.frames.len() {
        None
    } else if st.frames[frame as int].vars.contains_key(name) {
        Some(st.frames[frame as int].vars[name])
    } else {
        match parent_of(st, frame) {
            Some(p) => spec_lookup(st, p, name),
            None => None,
        }
    }
}

/// What a name stands for in `frame`: a built-in first, then the frames.
pub open spec fn spec_resolve(st: SEnv, frame: nat, name: Seq<char>) -> Option<SVal> {
    match builtin_named(name) {
        Some(b) => Some(SVal::Builtin(b, name)),
        None => spec_lookup(st, frame, name),
    }
}

/// `frame` with `name` bound to `v`.
pub open spec fn spec_define(st: SEnv, frame: nat, name: Seq<char>, v: SVal) -> SEnv {
    if frame < st.frames.len() {
        SEnv {
            frames: st.frames.update(
                frame as int,
                SFrame { vars: st.frames[frame as int].vars.insert(name, v), ..st.frames[frame as int] },
            ),
            ..st
        }
    } else {
        st
    }
}

/// The store with a new, empty frame made in `parent`, and the index of the new frame.
pub open spec fn spec_new_child(st: SEnv, parent: nat) -> (SEnv, nat) {
    (
        SEnv {
            frames: st.frames.push(
                SFrame {
                    vars: Map::empty(),
                    parent: if parent < st.frames.len() {
                        Some(parent)
                    } else {
                        None
                    },
                },
            ),
            ..st
        },
        st.frames.len(),
    )
}

/// The store with the nearest binding of `name` (from `frame` outward) set to `v`;
/// `None` when no frame binds it.
pub open spec fn spec_set(st: SEnv, frame: nat, name: Seq<char>, v: SVal) -> Option<SEnv>
    decreases frame,
{
    if frame >= st.frames.len() {
        None
    } else if st.frames[frame as int].vars.contains_key(name) {
        Some(spec_define(st, frame, name, v))
    } else {
        match parent_of(st, frame) {
            Some(p) => spec_set(st, p, name, v),
            None => None,
        }
    }
}

impl Env {
    /// Every frame's names are distinct and each frame was made in an earlier one.
    pub closed spec fn wf(&self) -> bool {
        &&& forall|i: int| 0 <= i < self.frames@.len() ==> frame_wf(#[trigger] self.frames@[i], i)
        &&& self.frames@.len() >= 1
        &&& unique_keys(self.sources@)
        &&& self.input_pos <= self.input@.len()
    }

    /// The store with one empty frame, the global one.
    pub fn new() -> (r: Env)
        ensures
            r.wf(),
            r@.frames == seq![SFrame { vars: Map::empty(), parent: None }],
            r@.sources == Map::<Seq<char>, Seq<char>>::empty(),
            r@.input == Seq::<char>::empty(),
            !r@.input_closed,
            r@.output == Seq::<SPiece>::empty(),
    {
        let mut frames: Vec<Frame> = Vec::new();
        frames.push(Frame { vars: Vec::new(), parent: None });
        let r = Env {
            frames,
            sources: Vec::new(),
            input: Vec::new(),
            input_pos: 0,
            input_closed: false,
            output: Vec::new(),
        };
        proof {
            assert(r@.frames =~= seq![SFrame { vars: Map::empty(), parent: None }]);
            assert(r@.input =~= Seq::<char>::empty());
            assert(r@.output =~= Seq::<SPiece>::empty());
        }
        r
    }

    /// The global frame.
    pub fn root() -> (r: usize)
        ensures
            r == 0,
    {
        0
    }

    /// The number of frames.
    pub fn len(&self) -> (r: usize)
        ensures
            r == self@.frames.len(),
    {
        self.frames.len()
    }

    /// Makes an empty frame whose bindings fall back on those of `parent`.
    pub fn new_child(&mut self, parent: usize) -> (r: usize)
        requires
            old(self).wf(),
        ensures
            final(self).wf(),
            (final(self)@, r as nat) == spec_new_child(old(self)@, parent as nat),
    {
        let r = self.frames.len();
        let p = if parent < r {
            Some(parent)
        } else {
            None
        };
        self.frames.push(Frame { vars: Vec::new(), parent: p });
        proof {
            assert(self@.frames =~= spec_new_child(old(self)@, parent as nat).0.frames);
            assert(map_of(Seq::<(String, Value)>::empty()) =~= Map::empty());
            assert forall|i: int| 0 <= i < self.frames@.len() implies frame_wf(
                #[trigger] self.frames@[i],
                i,
            ) by {
                if i < r {
                    assert(self.frames@[i] == old(self).frames@[i]);
                }
            }
        }
        r
    }

    fn find_in(vars: &Vec<(String, Value)>, name: &str) -> (r: Option<usize>)
        ensures
            match r {
                Some(i) => i < vars@.len() && vars@[i as int].0@ == name@,
                None => forall|i: int| 0 <= i < vars@.len() ==> vars@[i].0@ != name@,
            },
    {
        let mut i: usize = 0;
        while i < vars.len()
            invariant
                i <= vars@.len(),
                forall|j: int| 0 <= j < i ==> vars@[j].0@ != name@,
            decreases vars@.len() - i,
        {
            if str_eq(vars[i].0.as_str(), name) {
                return Some(i);
            }
            i = i + 1;
        }
        None
    }

    /// Binds `name` to `value` in `frame`, replacing a binding of that name there.
    pub fn define(&mut self, frame: usize, name: &str, value: Value)
        requires
            old(self).wf(),
        ensures
            final(self).wf(),
            final(self)@ == spec_define(old(self)@, frame as nat, name@, value@),
    {
        if frame >= self.frames.len() {
            return ;
        }
        let ghost old_frame = self.frames@[frame as int];
        let ghost vv = value@;
        let mut f = Frame { vars: Vec::new(), parent: None };
        std::mem::swap(&mut f, &mut self.frames[frame]);
        let ghost old_vars = f.vars@;
        match Self::find_in(&f.vars, name) {
            Some(i) => {
                let key = owned(name);
                proof {
                    lemma_map_of_update(old_vars, i as int, (key, value));
                }
                f.vars.set(i, (key, value));
            },
            None => {
                let key = owned(name);
                proof {
                    assert(old_vars.push((key, value)).drop_last() =~= old_vars);
                }
                f.vars.push((key, value));
            },
        }
        self.frames.set(frame, f);
        proof {
            assert(self@.frames =~= spec_define(old(self)@, frame as nat, name@, vv).frames);
            assert forall|i: int| 0 <= i < self.frames@.len() implies frame_wf(
                #[trigger] self.frames@[i],
                i,
            ) by {
                if i != frame {
                    assert(self.frames@[i] == old(self).frames@[i]);
                }
            }
        }
    }

    /// The value bound to `name` in `frame` or the frames it was made in.
    pub fn lookup(&self, frame: usize, name: &str) -> (r: Option<Value>)
        requires
            self.wf(),
        ensures
            match (r, spec_lookup(self@, frame as nat, name@)) {
                (Some(v), Some(sv)) => v@ == sv,
                (None, None) => true,
                _ => false,
            },
    {
        let mut cur = frame;
        loop
            invariant
                self.wf(),
                spec_lookup(self@, cur as nat, name@) == spec_lookup(self@, frame as nat, name@),
            decreases cur,
        {
            if cur >= self.frames.len() {
                return None;
            }
            let f = &self.frames[cur];
            proof {
                assert(frame_wf(self.frames@[cur as int], cur as int));
                assert(self@.frames[cur as int] == f@);
            }
            match Self::find_in(&f.vars, name) {
                Some(i) => {
                    proof {
                        lemma_map_of_index(f.vars@, i as int);
                    }
                    return Some(f.vars[i].1.dup());
                },
                None => {
                    proof {
                        lemma_map_of_absent(f.vars@, name@);
                    }
                    match f.parent {
                        Some(p) => {
                            if p < cur {
                                cur = p;
                            } else {
                                return None;
                            }
                        },
                        None => {
                            return None;
                        },
                    }
                },
            }
        }
    }

    /// What `name` stands for in `frame`: the built-in of that name, else its binding.
    pub fn resolve(&self, frame: usize, name: &str) -> (r: Option<Value>)
        requires
            self.wf(),
        ensures
            match (r, spec_resolve(self@, frame as nat, name@)) {
                (Some(v), Some(sv)) => v@ == sv,
                (None, None) => true,
                _ => false,
            },
    {
        match builtin_for(name) {
            Some(b) => Some(Value::Builtin(b, owned(name))),
            None => self.lookup(frame, name),
        }
    }

    /// Sets the nearest binding of `name`, from `frame` outward, to `value`; fails when
    /// no frame binds it.
    pub fn set_bang(&mut self, frame: usize, name: &str, value: Value) -> (r: Result<(), EvalError>)
        requires
            old(self).wf(),
        ensures
            final(self).wf(),
            match spec_set(old(self)@, frame as nat, name@, value@) {
                Some(st) => r is Ok && final(self)@ == st,
                None => r matches Err(e) && e@ == SEvalError::SetUndefined(name@) && final(self)@
                    == old(self)@,
            },
    {
        let mut cur = frame;
        loop
            invariant
                self.wf(),
                self@ == old(self)@,
                spec_set(self@, cur as nat, name@, value@) == spec_set(
                    self@,
                    frame as nat,
                    name@,
                    value@,
                ),
            decreases cur,
        {
            if cur >= self.frames.len() {
                return Err(EvalError::SetUndefined(owned(name)));
            }
            let f = &self.frames[cur];
            proof {
                assert(frame_wf(self.frames@[cur as int], cur as int));
                assert(self@.frames[cur as int] == f@);
            }
            match Self::find_in(&f.vars, name) {
                Some(i) => {
                    proof {
                        lemma_map_of_index(f.vars@, i as int);
                    }
                    self.define(cur, name, value);
                    return Ok(());
                },
                None => {
                    proof {
                        lemma_map_of_absent(f.vars@, name@);
                    }
                    match f.parent {
                        Some(p) => {
                            if p < cur {
                                cur = p;
                            } else {
                                return Err(EvalError::SetUndefined(owned(name)));
                            }
                        },
                        None => {
                            return Err(EvalError::SetUndefined(owned(name)));
                        },
                    }
                },
            }
        }
    }

    /// Registers `contents` as the source that `(require name)` loads.
    pub fn add_source(&mut self, name: &str, contents: &str)
        requires
            old(self).wf(),
        ensures
            final(self).wf(),
            final(self)@ == (SEnv {
                sources: old(self)@.sources.insert(name@, contents@),
                ..old(self)@
            }),
    {
        let mut i: usize = 0;
        while i < self.sources.len()
            invariant
                i <= self.sources@.len(),
                self == old(self),
                self.wf(),
                forall|j: int| 0 <= j < i ==> self.sources@[j].0@ != name@,
            decreases self.sources@.len() - i,
        {
            if str_eq(self.sources[i].0.as_str(), name) {
                let ghost old_sources = self.sources@;
                let entry = (owned(name), owned(contents));
                proof {
                    lemma_sources_update(old_sources, i as int, entry);
                }
                self.sources.set(i, entry);
                return ;
            }
            i = i + 1;
        }
        let entry = (owned(name), owned(contents));
        proof {
            assert(self.sources@.push(entry).drop_last() =~= self.sources@);
        }
        self.sources.push(entry);
    }

    /// The source registered under `name`.
    pub fn source(&self, name: &str) -> (r: Option<String>)
        requires
            self.wf(),
        ensures
            match r {
                Some(s) => self@.sources.contains_key(name@) && s@ == self@.sources[name@],
                None => !self@.sources.contains_key(name@),
            },
    {
        let mut i: usize = 0;
        while i < self.sources.len()
            invariant
                i <= self.sources@.len(),
                self.wf(),
                forall|j: int| 0 <= j < i ==> self.sources@[j].0@ != name@,
            decreases self.sources@.len() - i,
        {
            if str_eq(self.sources[i].0.as_str(), name) {
                proof {
                    lemma_sources_index(self.sources@, i as int);
                }
                return Some(self.sources[i].1.clone());
            }
            i = i + 1;
        }
        proof {
            lemma_sources_absent(self.sources@, name@);
        }
        None
    }

    /// The bindings of one frame, in the order they were first made.
    pub fn entries(&self, frame: usize) -> (r: Vec<(String, Value)>)
        requires
            self.wf(),
        ensures
            frame >= self@.frames.len() ==> r@.len() == 0,
            frame < self@.frames.len() ==> map_of(r@) == self@.frames[frame as int].vars,
            unique_keys(r@),
    {
        let mut out: Vec<(String, Value)> = Vec::new();
        if frame >= self.frames.len() {
            return out;
        }
        let vars = &self.frames[frame].vars;
        let mut i: usize = 0;
        while i < vars.len()
            invariant
                i <= vars@.len(),
                out@.len() == i,
                forall|j: int|
                    0 <= j < i ==> (#[trigger] out@[j]).0@ == vars@[j].0@ && out@[j].1@
                        == vars@[j].1@,
            decreases vars@.len() - i,
        {
            out.push((vars[i].0.clone(), vars[i].1.dup()));
            i = i + 1;
        }
        proof {
            assert(frame_wf(self.frames@[frame as int], frame as int));
            lemma_map_of_same(out@, vars@);
        }
        out
    }
}

/// The kinds of value a dump lists apart.
#[derive(Debug, Clone, Copy, PartialEq, Eq, Structural)]
pub enum ValueKind {
    Builtin,
    Lambda,
    Func,
    Macro,
    Plain,
}

/// The kind of a value.
pub open spec fn kind_of(v: SVal) -> ValueKind {
    match v {
        SVal::Builtin(..) => ValueKind::Builtin,
        SVal::Lambda { .. } => ValueKind::Lambda,
        SVal::Func { .. } => ValueKind::Func,
        SVal::Macro { .. } => ValueKind::Macro,
        _ => ValueKind::Plain,
    }
}

/// The bindings of `m` whose values are of kind `k`.
pub open spec fn of_kind(m: Map<Seq<char>, SVal>, k: ValueKind) -> Map<Seq<char>, SVal> {
    Map::new(|n: Seq<char>| m.contains_key(n) && kind_of(m[n]) == k, |n: Seq<char>| m[n])
}

fn value_kind(v: &Value) -> (r: ValueKind)
    ensures
        r == kind_of(v@),
{
    match v {
        Value::Builtin(..) => ValueKind::Builtin,
        Value::Lambda { .. } => ValueKind::Lambda,
        Value::Func { .. } => ValueKind::Func,
        Value::Macro { .. } => ValueKind::Macro,
        _ => ValueKind::Plain,
    }
}

impl Env {
    /// The bindings of one frame whose values are of the given kind, in the order they
    /// were first made.
    pub fn entries_of_kind(&self, frame: usize, kind: ValueKind) -> (r: Vec<(String, Value)>)
        requires
            self.wf(),
        ensures
            frame >= self@.frames.len() ==> r@.len() == 0,
            frame < self@.frames.len() ==> map_of(r@) == of_kind(
                self@.frames[frame as int].vars,
                kind,
            ),
            unique_keys(r@),
    {
        let mut out: Vec<(String, Value)> = Vec::new();
        if frame >= self.frames.len() {
            return out;
        }
        let vars = &self.frames[frame].vars;
        proof {
            assert(frame_wf(self.frames@[frame as int], frame as int));
            assert(map_of(out@) =~= of_kind(map_of(vars@.take(0)), kind));
        }
        let mut i: usize = 0;
        while i < vars.len()
            invariant
                i <= vars@.len(),
                unique_keys(vars@),
                unique_keys(out@),
                map_of(out@) == of_kind(map_of(vars@.take(i as int)), kind),
                forall|j: int|
                    0 <= j < out@.len() ==> map_of(vars@.take(i as int)).contains_key(
                        (#[trigger] out@[j]).0@,
                    ),
            decreases vars@.len() - i,
        {
            let ghost pre = vars@.take(i as int);
            let ghost next = vars@.take(i + 1);
            proof {
                assert(next.drop_last() =~= pre);
                assert(next.last() == vars@[i as int]);
                assert forall|j: int| 0 <= j < pre.len() implies pre[j].0@ != vars@[i as int].0@ by {
                    assert(pre[j] == vars@[j]);
                }
                lemma_map_of_absent(pre, vars@[i as int].0@);
            }
            if value_kind(&vars[i].1) == kind {
                let ghost before = out@;
                out.push((vars[i].0.clone(), vars[i].1.dup()));
                proof {
                    assert(out@.drop_last() =~= before);
                    assert(map_of(out@) =~= of_kind(map_of(next), kind));
                    assert forall|a: int, b: int| 0 <= a < b < out@.len() implies out@[a].0@
                        != out@[b].0@ by {
                        if b == out@.len() - 1 {
                            assert(out@[a] == before[a]);
                        }
                    }
                    assert forall|j: int| 0 <= j < out@.len() implies map_of(next).contains_key(
                        (#[trigger] out@[j]).0@,
                    ) by {
                        if j < before.len() {
                            assert(out@[j] == before[j]);
                        }
                    }
                }
            } else {
                proof {
                    assert(map_of(out@) =~= of_kind(map_of(next), kind));
                }
            }
            i = i + 1;
        }
        proof {
            assert(vars@.take(vars@.len() as int) =~= vars@);
        }
        out
    }
}

proof fn lemma_map_of_same(a: Seq<(String, Value)>, b: Seq<(String, Value)>)
    requires
        a.len() == b.len(),
        forall|j: int| 0 <= j < a.len() ==> (#[trigger] a[j]).0@ == b[j].0@ && a[j].1@ == b[j].1@,
    ensures
        map_of(a) == map_of(b),
        unique_keys(b) ==> unique_keys(a),
    decreases a.len(),
{
    if a.len() > 0 {
        lemma_map_of_same(a.drop_last(), b.drop_last());
    }
}

proof fn lemma_sources_index(s: Seq<(String, String)>, i: int)
    requires
        unique_keys(s),
        0 <= i < s.len(),
    ensures
        sources_of(s).contains_key(s[i].0@),
        sources_of(s)[s[i].0@] == s[i].1@,
    decreases s.len(),
{
    if i < s.len() - 1 {
        lemma_sources_index(s.drop_last(), i);
    }
}

proof fn lemma_sources_absent(s: Seq<(String, String)>, k: Seq<char>)
    requires
        forall|i: int| 0 <= i < s.len() ==> s[i].0@ != k,
    ensures
        !sources_of(s).contains_key(k),
    decreases s.len(),
{
    if s.len() > 0 {
        lemma_sources_absent(s.drop_last(), k);
    }
}

proof fn lemma_sources_update(s: Seq<(String, String)>, i: int, p: (String, String))
    requires
        unique_keys(s),
        0 <= i < s.len(),
        p.0@ == s[i].0@,
    ensures
        sources_of(s.update(i, p)) == sources_of(s).insert(p.0@, p.1@),
        unique_keys(s.update(i, p)),
    decreases s.len(),
{
    let t = s.update(i, p);
    if i == s.len() - 1 {
        assert(t.drop_last() =~= s.drop_last());
        assert(sources_of(t) =~= sources_of(s).insert(p.0@, p.1@));
    } else {
        lemma_sources_update(s.drop_last(), i, p);
        assert(t.drop_last() =~= s.drop_last().update(i, p));
        assert(sources_of(t) =~= sources_of(s).insert(p.0@, p.1@));
    }
}

/// What `print` writes for its arguments: their printed forms separated by spaces.
pub open spec fn print_items(items: Seq<SVal>) -> Seq<SPiece>
    decreases items.len(),
{
    if items.len() == 0 {
        Seq::empty()
    } else if items.len() == 1 {
        spec_display(items[0])
    } else {
        print_items(items.drop_last()) + seq![SPiece::Text(" "@)] + spec_display(items.last())
    }
}

/// The position of the first newline of `s`.
pub open spec fn newline_at(s: Seq<char>) -> Option<nat>
    decreases s.len(),
{
    if s.len() == 0 {
        None
    } else if s[0] == '\n' {
        Some(0)
    } else {
        match newline_at(s.drop_first()) {
            Some(k) => Some(k + 1),
            None => None,
        }
    }
}

/// The first newline of `s` is at `k` when none comes before `k` and `k` holds one.
pub proof fn lemma_newline_at(s: Seq<char>, k: int)
    requires
        0 <= k <= s.len(),
        forall|j: int| 0 <= j < k ==> s[j] != '\n',
        k == s.len() || s[k] == '\n',
    ensures
        newline_at(s) == if k < s.len() {
            Some(k as nat)
        } else {
            None::<nat>
        },
    decreases k,
{
    if k > 0 {
        let r = s.drop_first();
        assert forall|j: int| 0 <= j < k - 1 implies r[j] != '\n' by {
            assert(r[j] == s[j + 1]);
        }
        if k < s.len() {
            assert(r[k - 1] == s[k]);
        }
        lemma_newline_at(r, k - 1);
    }
}

/// The built-ins that read input and write output, on their evaluated arguments: `print`
/// writes its arguments' printed forms, separated by spaces, and a newline, and gives
/// `nil`; `getchar` gives the next input char (as a char value), and `getline` the rest of
/// the current input line (as a string, without its newline); at the end of the input both
/// give `nil`, and when the input runs out while more may come they ask for it.
pub open spec fn spec_apply_io(b: BuiltinFn, args: SVal, st: SEnv) -> (Result<SVal, SError>, SEnv) {
    match b {
        BuiltinFn::Print => (
            Ok(SVal::Nil),
            SEnv {
                output: st.output + print_items(list_items(args)) + seq![SPiece::Text("\n"@)],
                ..st
            },
        ),
        BuiltinFn::GetChar => if args is Cons {
            (Err(SError::Builtin(BuiltinError::NoArgsExpected)), st)
        } else if st.input.len() > 0 {
            if latin1(st.input[0]) {
                (Ok(char_value(st.input[0])), SEnv { input: st.input.drop_first(), ..st })
            } else {
                (Err(SError::Builtin(BuiltinError::BadCharArg)), st)
            }
        } else if st.input_closed {
            (Ok(SVal::Nil), st)
        } else {
            (Err(SError::Eval(SEvalError::InputNeeded)), st)
        },
        BuiltinFn::GetLine => if args is Cons {
            (Err(SError::Builtin(BuiltinError::NoArgsExpected)), st)
        } else {
            match newline_at(st.input) {
                Some(k) => (
                    Ok(SVal::Str(st.input.take(k as int))),
                    SEnv { input: st.input.skip((k + 1) as int), ..st },
                ),
                None => if !st.input_closed {
                    (Err(SError::Eval(SEvalError::InputNeeded)), st)
                } else if st.input.len() == 0 {
                    (Ok(SVal::Nil), st)
                } else {
                    (Ok(SVal::Str(st.input)), SEnv { input: Seq::empty(), ..st })
                },
            }
        },
        _ => (Ok(SVal::Nil), st),
    }
}

impl Env {
    /// Adds `text` at the end of the input.
    pub fn feed_input(&mut self, text: &str)
        requires
            old(self).wf(),
        ensures
            final(self).wf(),
            final(self)@ == (SEnv { input: old(self)@.input + text@, ..old(self)@ }),
    {
        let chars = chars_of(text);
        let mut i: usize = 0;
        while i < chars.len()
            invariant
                self.wf(),
                chars@ == text@,
                i <= chars@.len(),
                self@ == (SEnv { input: old(self)@.input + text@.take(i as int), ..old(self)@ }),
            decreases chars@.len() - i,
        {
            let ghost pv = self@;
            let ghost pi = self.input@;
            self.input.push(chars[i]);
            proof {
                assert(self.input@ == pi.push(chars@[i as int]));
                assert(self.input@.subrange(self.input_pos as int, self.input@.len() as int)
                    =~= pv.input.push(text@[i as int]));
                assert(text@.take(i + 1) =~= text@.take(i as int).push(text@[i as int]));
                assert(pv.input.push(text@[i as int]) =~= old(self)@.input + text@.take(i + 1));
                assert(self@.input == old(self)@.input + text@.take(i + 1));
                assert(self@.frames == pv.frames);
            }
            i = i + 1;
        }
        proof {
            assert(text@.take(chars@.len() as int) =~= text@);
        }
    }

    /// Marks the end of the input: no more will come.
    pub fn close_input(&mut self)
        requires
            old(self).wf(),
        ensures
            final(self).wf(),
            final(self)@ == (SEnv { input_closed: true, ..old(self)@ }),
    {
        self.input_closed = true;
    }

    /// Takes what `print` wrote, leaving no output behind.
    pub fn take_output(&mut self) -> (r: Vec<Piece>)
        requires
            old(self).wf(),
        ensures
            final(self).wf(),
            pieces_view(r@) == old(self)@.output,
            final(self)@ == (SEnv { output: Seq::empty(), ..old(self)@ }),
    {
        let mut out: Vec<Piece> = Vec::new();
        std::mem::swap(&mut out, &mut self.output);
        proof {
            assert(pieces_view(self.output@) =~= Seq::<SPiece>::empty());
        }
        out
    }

    fn write_piece(&mut self, p: Piece)
        requires
            old(self).wf(),
        ensures
            final(self).wf(),
            final(self)@ == (SEnv { output: old(self)@.output.push(piece_view(p)), ..old(self)@ }),
    {
        self.output.push(p);
        proof {
            assert(pieces_view(self.output@) =~= pieces_view(old(self).output@).push(piece_view(p)));
        }
    }

    fn write_pieces(&mut self, ps: Vec<Piece>)
        requires
            old(self).wf(),
        ensures
            final(self).wf(),
            final(self)@ == (SEnv { output: old(self)@.output + pieces_view(ps@), ..old(self)@ }),
    {
        let mut i: usize = 0;
        while i < ps.len()
            invariant
                self.wf(),
                i <= ps@.len(),
                self@ == (SEnv {
                    output: old(self)@.output + pieces_view(ps@.take(i as int)),
                    ..old(self)@
                }),
            decreases ps@.len() - i,
        {
            self.write_piece(ps[i].clone_piece());
            proof {
                assert(pieces_view(ps@.take(i + 1)) =~= pieces_view(ps@.take(i as int)).push(
                    piece_view(ps@[i as int]),
                ));
            }
            i = i + 1;
        }
        proof {
            assert(ps@.take(ps@.len() as int) =~= ps@);
        }
    }

    /// Runs an input or output built-in on its evaluated arguments.
    pub fn apply_io(&mut self, b: BuiltinFn, args: &Value) -> (r: Result<Value, Error>)
        requires
            old(self).wf(),
        ensures
            final(self).wf(),
            (match r {
                Ok(v) => Ok::<SVal, SError>(v@),
                Err(e) => Err(e@),
            }, final(self)@) == spec_apply_io(b, args@, old(self)@),
    {
        match b {
            BuiltinFn::Print => {
                let (items, _) = items_of(args);
                let ghost iv = list_items(args@);
                let mut i: usize = 0;
                while i < items.len()
                    invariant
                        self.wf(),
                        i <= items@.len(),
                        items@.map_values(|x: Value| x@) == iv,
                        self@ == (SEnv {
                            output: old(self)@.output + print_items(iv.take(i as int)),
                            ..old(self)@
                        }),
                    decreases items@.len() - i,
                {
                    assert(iv[i as int] == items@[i as int]@);
                    assert(iv.take(i + 1).drop_last() =~= iv.take(i as int));
                    let ghost o0 = self@.output;
                    let ghost pre = self@;
                    if i > 0 {
                        self.write_piece(Piece::Text(owned(" ")));
                    }
                    let ghost o1 = self@.output;
                    assert(i > 0 ==> o1 == o0.push(SPiece::Text(" "@)));
                    assert(i == 0 ==> o1 == o0);
                    self.write_pieces(items[i].display_pieces());
                    assert(self@.output == o1 + spec_display(iv[i as int]));
                    assert(self@.frames == pre.frames && self@.sources == pre.sources
                        && self@.input == pre.input && self@.input_closed == pre.input_closed);
                    proof {
                        let t = iv.take(i + 1);
                        assert(t.last() == iv[i as int]);
                        if i == 0 {
                            assert(t.len() == 1 && t[0] == iv[0]);
                            assert(old(self)@.output + print_items(iv.take(1)) =~= old(self)@.output
                                + spec_display(iv[0]));
                            assert(print_items(iv.take(0)) =~= Seq::<SPiece>::empty());
                            assert(self@.output =~= old(self)@.output + print_items(iv.take(1)));
                        } else {
                            assert(print_items(t) == print_items(iv.take(i as int)) + seq![
                                SPiece::Text(" "@),
                            ] + spec_display(iv[i as int]));
                            assert(old(self)@.output + print_items(iv.take(i + 1)) =~= old(
                                self,
                            )@.output + print_items(iv.take(i as int)) + seq![SPiece::Text(" "@)]
                                + spec_display(iv[i as int]));
                            assert(self@.output =~= old(self)@.output + print_items(iv.take(i + 1)));
                        }
                    }
                    i = i + 1;
                }
                assert(iv.take(iv.len() as int) =~= iv);
                self.write_piece(Piece::Text(owned("\n")));
                proof {
                    assert(self@.output =~= old(self)@.output + print_items(list_items(args@))
                        + seq![SPiece::Text("\n"@)]);
                }
                Ok(Value::Nil)
            },
            BuiltinFn::GetChar => {
                if matches!(args, Value::Cons(_)) {
                    return Err(Error::Builtin(BuiltinError::NoArgsExpected));
                }
                if self.input_pos < self.input.len() {
                    let c = self.input[self.input_pos];
                    assert(c == self@.input[0]);
                    if (c as u32) <= 255 {
                        self.input_pos = self.input_pos + 1;
                        proof {
                            assert(self@.input =~= old(self)@.input.drop_first());
                        }
                        Ok(Value::Char((c as u32) as u8))
                    } else {
                        Err(Error::Builtin(BuiltinError::BadCharArg))
                    }
                } else if self.input_closed {
                    Ok(Value::Nil)
                } else {
                    Err(Error::Eval(EvalError::InputNeeded))
                }
            },
            BuiltinFn::GetLine => {
                if matches!(args, Value::Cons(_)) {
                    return Err(Error::Builtin(BuiltinError::NoArgsExpected));
                }
                let ghost s = self@.input;
                let start = self.input_pos;
                let mut k: usize = start;
                while k < self.input.len() && self.input[k] != '\n'
                    invariant
                        self.wf(),
                        self == old(self),
                        s == self@.input,
                        start == self.input_pos,
                        start <= k <= self.input@.len(),
                        forall|j: int| 0 <= j < k - start ==> s[j] != '\n',
                    decreases self.input@.len() - k,
                {
                    assert(s[k - start] == self.input@[k as int]);
                    k = k + 1;
                }
                if k < self.input.len() {
                    assert(s[k - start] == self.input@[k as int]);
                }
                proof {
                    lemma_newline_at(s, k - start);
                }
                let mut line = String::new();
                let mut j: usize = start;
                while j < k
                    invariant
                        self == old(self),
                        s == self@.input,
                        start == self.input_pos,
                        start <= j <= k <= self.input@.len(),
                        line@ == s.take(j - start),
                    decreases k - j,
                {
                    assert(s[j - start] == self.input@[j as int]);
                    line.append(char_text(self.input[j]).as_str());
                    assert(s.take(j + 1 - start) =~= s.take(j - start).push(s[j - start]));
                    j = j + 1;
                }
                if k < self.input.len() {
                    self.input_pos = k + 1;
                    proof {
                        assert(self@.input =~= s.skip(k + 1 - start));
                    }
                    Ok(Value::Str(line))
                } else if !self.input_closed {
                    Err(Error::Eval(EvalError::InputNeeded))
                } else if k == start {
                    Ok(Value::Nil)
                } else {
                    self.input_pos = k;
                    proof {
                        assert(self@.input =~= Seq::<char>::empty());
                        assert(s.take(k - start) =~= s);
                    }
                    Ok(Value::Str(line))
                }
            },
            _ => Ok(Value::Nil),
        }
    }
}

} // verus!
