//! Recursive-descent parser from tokens to s-expressions.
//! Quote marks become two-element lists headed by `quote`, `quasiquote`,
//! `unquote` or `unquotesplicing`.
use vstd::prelude::*;
use vstd::slice::slice_subrange;

use crate::lexer::{SKind, SToken, Span, Token, TokenKind, tokens_view};

verus! {

#[derive(Debug, Clone, Copy, PartialEq, Eq)]
pub enum ParseError {
    EmptyInput,
    UnexpectedEof { span: Span },
    UnexpectedToken { span: Span },
}

#[derive(Debug, PartialEq)]
pub enum Expr<'a> {
    Atom(&'a str, Span),
    List(Vec<Expr<'a>>, Span),
}

/// The mathematical value of an expression: atoms by their text, lists by their items,
/// each with the line and column of its span.
pub enum SExpr {
    Atom(Seq<char>, nat, nat),
    List(Seq<SExpr>, nat, nat),
}

/// The value of an expression.
pub open spec fn expr_view<'a>(e: Expr<'a>) -> SExpr
    decreases e,
{
    match e {
        Expr::Atom(s, sp) => SExpr::Atom(s@, sp.line as nat, sp.column as nat),
        Expr::List(v, sp) => SExpr::List(exprs_view(v@), sp.line as nat, sp.column as nat),
    }
}

/// The values of a sequence of expressions.
pub open spec fn exprs_view<'a>(s: Seq<Expr<'a>>) -> Seq<SExpr>
    decreases s,
{
    if s.len() == 0 {
        seq![]
    } else {
        exprs_view(s.drop_last()).push(expr_view(s.last()))
    }
}

impl<'a> View for Expr<'a> {
    type V = SExpr;

    open spec fn view(&self) -> SExpr {
        expr_view(*self)
    }
}

/// The values of a sequence of expressions are the values of its items.
pub proof fn lemma_exprs_view<'a>(s: Seq<Expr<'a>>)
    ensures
        exprs_view(s) =~= s.map_values(|e: Expr<'a>| e@),
    decreases s.len(),
{
    if s.len() > 0 {
        lemma_exprs_view(s.drop_last());
    }
}

/// The span of a token as a `Span` value.
pub open spec fn span_of(t: SToken) -> Span {
    Span { line: t.line as usize, column: t.column as usize }
}

/// The atom a quote mark expands to.
pub open spec fn quote_name(k: SKind) -> Seq<char> {
    match k {
        SKind::UnQuote => "unquote"@,
        SKind::UnQuoteSplicing => "unquotesplicing"@,
        SKind::QuasiQuote => "quasiquote"@,
        _ => "quote"@,
    }
}

/// Parses one expression from the front of `t`: the expression and the number of
/// tokens it took.
pub open spec fn spec_parse_expr(t: Seq<SToken>) -> Result<(SExpr, nat), ParseError>
    decreases t.len(), 1nat,
{
    if t.len() == 0 {
        Err(ParseError::EmptyInput)
    } else {
        let f = t[0];
        match f.kind {
            SKind::Symbol(s) => Ok((SExpr::Atom(s, f.line, f.column), 1)),
            SKind::LeftParen => if t.len() < 2 {
                Err(ParseError::UnexpectedEof { span: span_of(f) })
            } else {
                match spec_parse_list(t.subrange(1, t.len() as int)) {
                    Ok((e, n)) => Ok((e, n + 1)),
                    Err(e) => Err(e),
                }
            },
            SKind::RightParen => Err(ParseError::UnexpectedToken { span: span_of(f) }),
            _ => if t.len() < 2 {
                Err(ParseError::UnexpectedEof { span: span_of(f) })
            } else {
                match spec_parse_expr(t.subrange(1, t.len() as int)) {
                    Ok((e, n)) => Ok(
                        (
                            SExpr::List(
                                seq![SExpr::Atom(quote_name(f.kind), f.line, f.column), e],
                                f.line,
                                f.column,
                            ),
                            n + 1,
                        ),
                    ),
                    Err(e) => Err(e),
                }
            },
        }
    }
}

/// Parses the items of a list whose `(` has been taken, up to and including its `)`:
/// the list and the number of tokens taken.
pub open spec fn spec_parse_list(t: Seq<SToken>) -> Result<(SExpr, nat), ParseError>
    decreases t.len(), 3nat,
{
    if t.len() == 0 {
        Err(ParseError::EmptyInput)
    } else {
        match spec_parse_items(t, 0, seq![]) {
            Ok((items, n)) => Ok((SExpr::List(items, t[0].line, t[0].column), n)),
            Err(e) => Err(e),
        }
    }
}

/// Parses items from position `i` on, after the items `acc`.
pub open spec fn spec_parse_items(t: Seq<SToken>, i: nat, acc: Seq<SExpr>) -> Result<
    (Seq<SExpr>, nat),
    ParseError,
>
    decreases t.len() - i, 2nat,
{
    if i >= t.len() {
        Err(ParseError::UnexpectedEof { span: span_of(t[t.len() - 1]) })
    } else if t[i as int].kind is RightParen {
        Ok((acc, i + 1))
    } else {
        match spec_parse_expr(t.subrange(i as int, t.len() as int)) {
            Ok((e, n)) => if 0 < n && n <= t.len() - i {
                spec_parse_items(t, i + n, acc.push(e))
            } else {
                Err(ParseError::EmptyInput)
            },
            Err(e) => Err(e),
        }
    }
}

/// What a parse takes from the front of its input is at least one token and at most all.
pub proof fn lemma_parse_consumes(t: Seq<SToken>)
    ensures
        spec_parse_expr(t) matches Ok((_, n)) ==> 0 < n <= t.len(),
    decreases t.len(), 1nat,
{
    if t.len() > 0 {
        if t[0].kind is LeftParen {
            lemma_list_consumes(t.subrange(1, t.len() as int));
        } else if t.len() >= 2 {
            lemma_parse_consumes(t.subrange(1, t.len() as int));
        }
    }
}

proof fn lemma_list_consumes(t: Seq<SToken>)
    ensures
        spec_parse_list(t) matches Ok((_, n)) ==> 0 < n <= t.len(),
    decreases t.len(), 3nat,
{
    if t.len() > 0 {
        lemma_items_consume(t, 0, seq![]);
    }
}

proof fn lemma_items_consume(t: Seq<SToken>, i: nat, acc: Seq<SExpr>)
    requires
        i <= t.len(),
    ensures
        spec_parse_items(t, i, acc) matches Ok((_, n)) ==> i < n <= t.len(),
    decreases t.len() - i, 2nat,
{
    if i < t.len() && !(t[i as int].kind is RightParen) {
        lemma_parse_consumes(t.subrange(i as int, t.len() as int));
        match spec_parse_expr(t.subrange(i as int, t.len() as int)) {
            Ok((e, n)) => {
                if 0 < n && n <= t.len() - i {
                    lemma_items_consume(t, i + n, acc.push(e));
                }
            },
            Err(_) => {},
        }
    }
}

/// The parse result an exec result stands for.
pub open spec fn parse_matches<'a>(
    r: Result<(Expr<'a>, &'a [Token<'a>]), ParseError>,
    tokens: Seq<Token<'a>>,
    s: Result<(SExpr, nat), ParseError>,
) -> bool {
    match (r, s) {
        (Ok((e, rest)), Ok((se, n))) => e@ == se && n <= tokens.len() && rest@ == tokens.subrange(
            n as int,
            tokens.len() as int,
        ),
        (Err(e1), Err(e2)) => e1 == e2,
        _ => false,
    }
}

/// The views of a run of tokens are that run of their views.
pub proof fn lemma_views_subrange<'a>(ts: Seq<Token<'a>>, i: int, j: int)
    requires
        0 <= i <= j <= ts.len(),
    ensures
        tokens_view(ts.subrange(i, j)) == tokens_view(ts).subrange(i, j),
{
    assert(tokens_view(ts.subrange(i, j)) =~= tokens_view(ts).subrange(i, j));
}

/// Parses the first expression of `tokens`; returns it with the tokens that follow it.
pub fn parse_expr<'a>(tokens: &'a [Token<'a>]) -> (r: Result<(Expr<'a>, &'a [Token<'a>]), ParseError>)
    ensures
        parse_matches(r, tokens@, spec_parse_expr(tokens_view(tokens@))),
    decreases tokens@.len(), 1nat,
{
    let ghost tv = tokens_view(tokens@);
    if tokens.len() == 0 {
        return Err(ParseError::EmptyInput);
    }
    let first = &tokens[0];
    let rest = slice_subrange(tokens, 1, tokens.len());
    proof {
        lemma_views_subrange(tokens@, 1, tokens@.len() as int);
        lemma_parse_consumes(tv.subrange(1, tv.len() as int));
        lemma_list_consumes(tv.subrange(1, tv.len() as int));
    }
    match &first.kind {
        TokenKind::Symbol(s) => {
            let span = first.span;
            Ok((Expr::Atom(s, span), rest))
        },
        TokenKind::LeftParen => {
            if tokens.len() < 2 {
                return Err(ParseError::UnexpectedEof { span: first.span });
            }
            let r = parse_list(rest);
            match r {
                Ok((e, rest2)) => {
                    proof {
                        assert(rest2@ =~= tokens@.subrange(
                            tokens@.len() - rest2@.len(),
                            tokens@.len() as int,
                        ));
                    }
                    Ok((e, rest2))
                },
                Err(e) => Err(e),
            }
        },
        TokenKind::RightParen => Err(ParseError::UnexpectedToken { span: first.span }),
        _ => {
            if tokens.len() < 2 {
                return Err(ParseError::UnexpectedEof { span: first.span });
            }
            let name = match &first.kind {
                TokenKind::UnQuote => "unquote",
                TokenKind::UnQuoteSplicing => "unquotesplicing",
                TokenKind::QuasiQuote => "quasiquote",
                _ => "quote",
            };
            let r = parse_expr(rest);
            match r {
                Ok((e, rest2)) => {
                    let quote = Expr::Atom(name, first.span);
                    let mut items: Vec<Expr<'a>> = Vec::new();
                    items.push(quote);
                    items.push(e);
                    let list = Expr::List(items, first.span);
                    proof {
                        lemma_exprs_view(items@);
                        assert(list@->List_0 =~= seq![SExpr::Atom(quote_name(tv[0].kind), tv[0].line, tv[0].column), e@]);
                        assert(list@ == SExpr::List(
                            seq![SExpr::Atom(quote_name(tv[0].kind), tv[0].line, tv[0].column), e@],
                            tv[0].line,
                            tv[0].column,
                        ));
                        assert(rest2@ =~= tokens@.subrange(
                            tokens@.len() - rest2@.len(),
                            tokens@.len() as int,
                        ));
                    }
                    Ok((list, rest2))
                },
                Err(e) => Err(e),
            }
        },
    }
}

/// Parses the items of a list whose `(` has been taken, up to its `)`.
fn parse_list<'a>(tokens: &'a [Token<'a>]) -> (r: Result<(Expr<'a>, &'a [Token<'a>]), ParseError>)
    ensures
        parse_matches(r, tokens@, spec_parse_list(tokens_view(tokens@))),
    decreases tokens@.len(), 3nat,
{
    let ghost tv = tokens_view(tokens@);
    if tokens.len() == 0 {
        return Err(ParseError::EmptyInput);
    }
    let span = tokens[0].span;
    let mut list: Vec<Expr<'a>> = Vec::new();
    let mut i: usize = 0;
    proof {
        assert(list@.map_values(|e: Expr<'a>| e@) =~= seq![]);
    }
    loop
        invariant
            tv == tokens_view(tokens@),
            tokens@.len() > 0,
            i <= tokens@.len(),
            spec_parse_items(tv, i as nat, list@.map_values(|e: Expr<'a>| e@)) == spec_parse_items(
                tv,
                0,
                seq![],
            ),
        ensures
            i < tokens@.len(),
            tv[i as int].kind is RightParen,
            spec_parse_items(tv, i as nat, list@.map_values(|e: Expr<'a>| e@)) == spec_parse_items(
                tv,
                0,
                seq![],
            ),
        decreases tokens@.len() - i,
    {
        if i >= tokens.len() {
            return Err(ParseError::UnexpectedEof { span: tokens[tokens.len() - 1].span });
        }
        if matches!(tokens[i].kind, TokenKind::RightParen) {
            break ;
        }
        let sub = slice_subrange(tokens, i, tokens.len());
        proof {
            lemma_views_subrange(tokens@, i as int, tokens@.len() as int);
            lemma_parse_consumes(tv.subrange(i as int, tv.len() as int));
        }
        let ghost prev = list@.map_values(|e: Expr<'a>| e@);
        match parse_expr(sub) {
            Ok((expr, rest)) => {
                let ghost n = (sub@.len() - rest@.len()) as nat;
                i = tokens.len() - rest.len();
                list.push(expr);
                proof {
                    assert(list@.map_values(|e: Expr<'a>| e@) =~= prev.push(expr@));
                }
            },
            Err(e) => {
                return Err(e);
            },
        }
    }
    proof {
        lemma_items_consume(tv, 0, seq![]);
        lemma_views_subrange(tokens@, (i + 1) as int, tokens@.len() as int);
    }
    let rest = slice_subrange(tokens, i + 1, tokens.len());
    let out = Expr::List(list, span);
    proof {
        let items = list@.map_values(|e: Expr<'a>| e@);
        assert(out@ == SExpr::List(items, tv[0].line, tv[0].column)) by {
            lemma_exprs_view(list@);
        }
    }
    Ok((out, rest))
}

} // verus!
