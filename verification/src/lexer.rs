//! Tokenizer: turns source text into parens, quote marks and symbols,
//! each tagged with the line and column where it starts.
use vstd::prelude::*;
use vstd::string::*;

use crate::text::chars_of;

verus! {

broadcast use vstd::string::group_string_axioms;

/// A position in the source: line (from 0) and column (from 1 for the first char of a line).
#[derive(Debug, Clone, Copy, PartialEq, Eq)]
pub struct Span {
    pub line: usize,
    pub column: usize,
}

#[derive(Debug, PartialEq)]
pub struct Token<'a> {
    pub kind: TokenKind<'a>,
    pub span: Span,
}

#[derive(Debug, PartialEq)]
pub enum TokenKind<'a> {
    LeftParen,
    RightParen,
    Quote,
    QuasiQuote,
    UnQuote,
    UnQuoteSplicing,
    Symbol(&'a str),
}

/// The mathematical value of a token kind: a symbol is its text as a sequence of chars.
pub enum SKind {
    LeftParen,
    RightParen,
    Quote,
    QuasiQuote,
    UnQuote,
    UnQuoteSplicing,
    Symbol(Seq<char>),
}

/// The mathematical value of a token.
pub struct SToken {
    pub kind: SKind,
    pub line: nat,
    pub column: nat,
}

impl<'a> View for TokenKind<'a> {
    type V = SKind;

    open spec fn view(&self) -> SKind {
        match self {
            TokenKind::LeftParen => SKind::LeftParen,
            TokenKind::RightParen => SKind::RightParen,
            TokenKind::Quote => SKind::Quote,
            TokenKind::QuasiQuote => SKind::QuasiQuote,
            TokenKind::UnQuote => SKind::UnQuote,
            TokenKind::UnQuoteSplicing => SKind::UnQuoteSplicing,
            TokenKind::Symbol(s) => SKind::Symbol(s@),
        }
    }
}

impl<'a> View for Token<'a> {
    type V = SToken;

    open spec fn view(&self) -> SToken {
        SToken { kind: self.kind@, line: self.span.line as nat, column: self.span.column as nat }
    }
}

/// The views of a slice of tokens.
pub open spec fn tokens_view<'a>(ts: Seq<Token<'a>>) -> Seq<SToken> {
    ts.map_values(|t: Token<'a>| t@)
}

/// Unicode `White_Space` property, the set `char::is_whitespace` tests for.
pub open spec fn white_space(c: char) -> bool {
    let n = c as u32;
    ||| (0x9 <= n && n <= 0xD)
    ||| n == 0x20
    ||| n == 0x85
    ||| n == 0xA0
    ||| n == 0x1680
    ||| (0x2000 <= n && n <= 0x200A)
    ||| n == 0x2028
    ||| n == 0x2029
    ||| n == 0x202F
    ||| n == 0x205F
    ||| n == 0x3000
}

/// Whether `c` has the Unicode `White_Space` property.
pub fn is_white_space(c: char) -> (r: bool)
    ensures
        r == white_space(c),
{
    let n = c as u32;
    (0x9 <= n && n <= 0xD) || n == 0x20 || n == 0x85 || n == 0xA0 || n == 0x1680 || (0x2000 <= n
        && n <= 0x200A) || n == 0x2028 || n == 0x2029 || n == 0x202F || n == 0x205F || n == 0x3000
}

/// The lexer's state after reading a prefix of the input.
pub struct LexState {
    pub line: nat,
    pub column: nat,
    pub start_col: nat,
    pub last: nat,
    pub building: bool,
    pub escape: bool,
    pub comment: bool,
    pub tokens: Seq<SToken>,
}

pub open spec fn lex_init() -> LexState {
    LexState {
        line: 0,
        column: 0,
        start_col: 0,
        last: 0,
        building: false,
        escape: false,
        comment: false,
        tokens: seq![],
    }
}

/// Cuts the pending symbol `chars[last..buf_end]` (if non-empty), then the token `kind`
/// (if any) at the current column, and moves the start of the pending text past `i`.
pub open spec fn emit(
    chars: Seq<char>,
    st: LexState,
    i: nat,
    buf_end: nat,
    kind: Option<SKind>,
) -> LexState {
    let t1 = if st.last != buf_end {
        st.tokens.push(
            SToken {
                kind: SKind::Symbol(chars.subrange(st.last as int, buf_end as int)),
                line: st.line,
                column: st.start_col,
            },
        )
    } else {
        st.tokens
    };
    let t2 = match kind {
        Some(k) => t1.push(SToken { kind: k, line: st.line, column: st.column }),
        None => t1,
    };
    LexState { tokens: t2, last: i + 1, ..st }
}

/// The token a punctuation char stands for.
pub open spec fn punct_kind(c: char) -> Option<SKind> {
    if c == '(' {
        Some(SKind::LeftParen)
    } else if c == ')' {
        Some(SKind::RightParen)
    } else if c == '\'' {
        Some(SKind::Quote)
    } else if c == '`' {
        Some(SKind::QuasiQuote)
    } else if c == '@' {
        Some(SKind::UnQuoteSplicing)
    } else if c == ',' {
        Some(SKind::UnQuote)
    } else {
        None
    }
}

/// One step of the lexer: reading `chars[i]` in state `st`.
pub open spec fn lex_step(chars: Seq<char>, st: LexState, i: nat) -> LexState {
    let c = chars[i as int];
    let st = LexState { column: st.column + 1, ..st };
    if st.escape {
        LexState { escape: false, ..st }
    } else if c == '\n' {
        let cut = emit(chars, LexState { comment: false, ..st }, i, i, None);
        LexState { line: cut.line + 1, column: 0, ..cut }
    } else if st.comment {
        emit(chars, st, i, i, None)
    } else if c == '"' {
        if !st.building {
            if st.last == i {
                LexState { building: true, start_col: st.column, ..st }
            } else {
                LexState { building: true, ..st }
            }
        } else {
            emit(chars, LexState { building: false, ..st }, i, i + 1, None)
        }
    } else if c == '\\' && st.building {
        LexState { escape: true, ..st }
    } else if st.building {
        st
    } else if punct_kind(c) is Some {
        emit(chars, st, i, i, punct_kind(c))
    } else if c == ';' {
        emit(chars, LexState { comment: true, ..st }, i, i, None)
    } else if white_space(c) {
        emit(chars, st, i, i, None)
    } else if st.last == i {
        LexState { start_col: st.column, ..st }
    } else {
        st
    }
}

/// The lexer's state after reading the first `n` chars.
pub open spec fn lex_prefix(chars: Seq<char>, n: nat) -> LexState
    decreases n,
{
    if n == 0 {
        lex_init()
    } else {
        lex_step(chars, lex_prefix(chars, (n - 1) as nat), (n - 1) as nat)
    }
}

/// The tokens of `chars`: the state after the last char, plus the pending symbol if any.
pub open spec fn spec_lex(chars: Seq<char>) -> Seq<SToken> {
    let st = lex_prefix(chars, chars.len());
    if st.last != chars.len() {
        st.tokens.push(
            SToken {
                kind: SKind::Symbol(chars.subrange(st.last as int, chars.len() as int)),
                line: st.line,
                column: st.start_col,
            },
        )
    } else {
        st.tokens
    }
}

proof fn lemma_lex_bounds(chars: Seq<char>, n: nat)
    requires
        n <= chars.len(),
    ensures
        lex_prefix(chars, n).line <= n,
        lex_prefix(chars, n).column <= n,
        lex_prefix(chars, n).start_col <= n,
        lex_prefix(chars, n).last <= n,
    decreases n,
{
    if n > 0 {
        lemma_lex_bounds(chars, (n - 1) as nat);
    }
}

/// Splits `code` into tokens.
///
/// Symbols are maximal runs of chars other than whitespace, parens, quote marks and `;`;
/// a `"` starts a string literal that runs (spaces included, `\` escaping the next char)
/// to the next unescaped `"`; `;` starts a comment that runs to the end of the line.
pub fn lex<'a>(code: &'a str) -> (tokens: Vec<Token<'a>>)
    ensures
        tokens_view(tokens@) == spec_lex(code@),
{
    let chars = chars_of(code);
    let n = chars.len();
    let mut tokens: Vec<Token<'a>> = Vec::new();
    let mut line: usize = 0;
    let mut column: usize = 0;
    let mut token_start_col: usize = 0;
    let mut last: usize = 0;
    let mut building_string = false;
    let mut escape = false;
    let mut comment = false;
    let mut i: usize = 0;
    while i < n
        invariant
            n == chars@.len(),
            chars@ == code@,
            i <= n,
            ({
                let st = lex_prefix(chars@, i as nat);
                &&& st.line == line
                &&& st.column == column
                &&& st.start_col == token_start_col
                &&& st.last == last
                &&& st.building == building_string
                &&& st.escape == escape
                &&& st.comment == comment
                &&& st.tokens == tokens_view(tokens@)
            }),
        decreases n - i,
    {
        proof {
            lemma_lex_bounds(chars@, i as nat);
        }
        let ghost before = tokens_view(tokens@);
        let c = chars[i];
        column = column + 1;
        if escape {
            escape = false;
        } else {
            let mut cut = false;
            let mut buf_end = i;
            let mut kind: Option<TokenKind<'a>> = None;
            let mut newline = false;
            if c == '\n' {
                comment = false;
                newline = true;
                cut = true;
            } else if comment {
                cut = true;
            } else if c == '"' {
                if !building_string {
                    building_string = true;
                    if last == i {
                        token_start_col = column;
                    }
                } else {
                    building_string = false;
                    buf_end = i + 1;
                    cut = true;
                }
            } else if c == '\\' && building_string {
                escape = true;
            } else if building_string {
            } else if c == '(' {
                kind = Some(TokenKind::LeftParen);
                cut = true;
            } else if c == ')' {
                kind = Some(TokenKind::RightParen);
                cut = true;
            } else if c == '\'' {
                kind = Some(TokenKind::Quote);
                cut = true;
            } else if c == '`' {
                kind = Some(TokenKind::QuasiQuote);
                cut = true;
            } else if c == '@' {
                kind = Some(TokenKind::UnQuoteSplicing);
                cut = true;
            } else if c == ',' {
                kind = Some(TokenKind::UnQuote);
                cut = true;
            } else if c == ';' {
                comment = true;
                cut = true;
            } else if is_white_space(c) {
                cut = true;
            } else if last == i {
                token_start_col = column;
            }
            if cut {
                if last != buf_end {
                    let text = code.substring_char(last, buf_end);
                    tokens.push(
                        Token {
                            kind: TokenKind::Symbol(text),
                            span: Span { line, column: token_start_col },
                        },
                    );
                }
                match kind {
                    Some(k) => {
                        tokens.push(Token { kind: k, span: Span { line, column } });
                    },
                    None => {},
                }
                last = i + 1;
            }
            if newline {
                line = line + 1;
                column = 0;
            }
        }
        proof {
            assert(tokens_view(tokens@) == lex_prefix(chars@, (i + 1) as nat).tokens);
        }
        i = i + 1;
    }
    proof {
        lemma_lex_bounds(chars@, n as nat);
    }
    if last != n {
        let text = code.substring_char(last, n);
        tokens.push(Token { kind: TokenKind::Symbol(text), span: Span { line, column: token_start_col } });
    }
    proof {
        assert(tokens_view(tokens@) == spec_lex(code@));
    }
    tokens
}

} // verus!
