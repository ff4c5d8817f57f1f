//! The grammar of a sprite source: a parser from tokens to the syntax tree.
//!
//! `spec_*` functions state the grammar; each is a recursive descent rule that
//! reads tokens from position `p` and gives the tree it read with the position
//! after it, or the diagnostic of the first token it cannot accept.  A rule
//! that succeeds always reads at least one token (the executable parser
//! proves it); the tests of positions in the rules only make the termination
//! of the rules evident.  The executable parser follows each rule exactly.
use vstd::prelude::*;

use crate::ast::{
    BinOp, Block, EnumDecl, Event, EventKind, Expr, FieldValue, Func, Kwarg, List, ListDecl,
    Number, Proc, Repr, Span, Sprite, Stmt, StructDecl, UnOp, Value, VarDecl,
};
use crate::diagnostic::{Diagnostic, DiagnosticKind};
use crate::lexer::eq_word;
use crate::literal::{
    lemma_source_value_fits, literal_den, literal_digits, literal_num, literals_fit,
    literals_fit_fields, literals_fit_kwargs, literals_fit_list, literals_fit_sprite,
    literals_fit_stmt, literals_fit_stmts, source_values,
};
use crate::spelling::{
    binop_level, binop_symbol, block_spelling, repr_spelling, spelling, unop_symbol,
};
use crate::token::{SpannedToken, Token};

verus! {

/// Every token lies inside the source.
pub open spec fn tokens_fit(src: Seq<u8>, toks: Seq<SpannedToken>) -> bool {
    forall|k: int| 0 <= k < toks.len() ==> #[trigger] toks[k].0 <= toks[k].2 <= src.len()
}

/// The executable result `r` is the specified result `s`.
pub open spec fn same<T>(r: Result<(T, usize), Diagnostic>, s: Result<(T, int), Diagnostic>) -> bool {
    match r {
        Ok((v, q)) => s == Ok::<(T, int), Diagnostic>((v, q as int)),
        Err(d) => s == Err::<(T, int), Diagnostic>(d),
    }
}

/// A successful rule reads at least one token.
pub open spec fn advances<T>(r: Result<(T, usize), Diagnostic>, p: int, len: int) -> bool {
    r matches Ok((_, q)) ==> p < q <= len
}

pub open spec fn tok_at(toks: Seq<SpannedToken>, p: int) -> Option<Token> {
    if 0 <= p < toks.len() {
        Some(toks[p].1)
    } else {
        None
    }
}

pub open spec fn tok_span(toks: Seq<SpannedToken>, p: int) -> Span {
    Span { start: toks[p].0, end: toks[p].2 }
}

/// The span from the start of token `p` to the end of token `q - 1`.
pub open spec fn span_from(toks: Seq<SpannedToken>, p: int, q: int) -> Span {
    Span { start: toks[p].0, end: toks[q - 1].2 }
}

/// The empty span at the end of the last token.
pub open spec fn eof_span(toks: Seq<SpannedToken>) -> Span {
    if toks.len() == 0 {
        Span { start: 0, end: 0 }
    } else {
        Span { start: toks.last().2, end: toks.last().2 }
    }
}

/// The diagnostic for a rule that cannot accept the token at `p`.
pub open spec fn error_at(toks: Seq<SpannedToken>, p: int) -> Diagnostic {
    if 0 <= p < toks.len() {
        Diagnostic { kind: DiagnosticKind::UnrecognizedToken, span: tok_span(toks, p) }
    } else {
        Diagnostic { kind: DiagnosticKind::UnrecognizedEof, span: eof_span(toks) }
    }
}

/// The source text of token `p`.
pub open spec fn tok_text(texts: Seq<Seq<u8>>, toks: Seq<SpannedToken>, p: int) -> Seq<u8> {
    texts[p]
}

/// The text of each token of `toks` in `src`: all that the grammar reads of
/// the source.
pub open spec fn token_texts(src: Seq<u8>, toks: Seq<SpannedToken>) -> Seq<Seq<u8>> {
    Seq::new(toks.len(), |k: int| src.subrange(toks[k].0 as int, toks[k].2 as int))
}

/// The binary operator of precedence level `k` (1 binds tightest, 6 loosest)
/// that token `t` stands for.
pub open spec fn level_op(k: u8, t: Token) -> Option<BinOp> {
    if k == 6 {
        match t {
            Token::PipePipe => Some(BinOp::Or),
            _ => None,
        }
    } else if k == 5 {
        match t {
            Token::AmpAmp => Some(BinOp::And),
            _ => None,
        }
    } else if k == 4 {
        match t {
            Token::Eq => Some(BinOp::Eq),
            Token::Ne => Some(BinOp::Ne),
            Token::Lt => Some(BinOp::Lt),
            Token::Le => Some(BinOp::Le),
            Token::Gt => Some(BinOp::Gt),
            Token::Ge => Some(BinOp::Ge),
            Token::In => Some(BinOp::In),
            _ => None,
        }
    } else if k == 3 {
        match t {
            Token::Amp => Some(BinOp::Join),
            _ => None,
        }
    } else if k == 2 {
        match t {
            Token::Plus => Some(BinOp::Add),
            Token::Minus => Some(BinOp::Sub),
            _ => None,
        }
    } else if k == 1 {
        match t {
            Token::Star => Some(BinOp::Mul),
            Token::Slash => Some(BinOp::Div),
            Token::Percent => Some(BinOp::Mod),
            Token::Div => Some(BinOp::FloorDiv),
            _ => None,
        }
    } else {
        None
    }
}

/// The prefix operator that token `t` stands for.
pub open spec fn unary_op(t: Token) -> Option<UnOp> {
    match t {
        Token::Bang => Some(UnOp::Not),
        Token::Minus => Some(UnOp::Minus),
        Token::Round => Some(UnOp::Round),
        Token::Abs => Some(UnOp::Abs),
        Token::Floor => Some(UnOp::Floor),
        Token::Ceil => Some(UnOp::Ceil),
        Token::Sqrt => Some(UnOp::Sqrt),
        Token::Sin => Some(UnOp::Sin),
        Token::Cos => Some(UnOp::Cos),
        Token::Tan => Some(UnOp::Tan),
        Token::Asin => Some(UnOp::Asin),
        Token::Acos => Some(UnOp::Acos),
        Token::Atan => Some(UnOp::Atan),
        Token::Ln => Some(UnOp::Ln),
        Token::Log => Some(UnOp::Log),
        Token::Antiln => Some(UnOp::Antiln),
        Token::Antilog => Some(UnOp::Antilog),
        Token::Length => Some(UnOp::Length),
        _ => None,
    }
}

/// The operator of a compound assignment `name op= value;`.
pub open spec fn assign_op(t: Token) -> Option<BinOp> {
    match t {
        Token::StarAssign => Some(BinOp::Mul),
        Token::SlashAssign => Some(BinOp::Div),
        Token::PercentAssign => Some(BinOp::Mod),
        Token::AmpAssign => Some(BinOp::Join),
        Token::DivAssign => Some(BinOp::FloorDiv),
        _ => None,
    }
}

/// The expression of precedence level `k` at `p`; level 6 is a whole
/// expression and level 0 an operand with its prefix operators.
pub open spec fn spec_level(texts: Seq<Seq<u8>>, toks: Seq<SpannedToken>, k: u8, p: int) -> Result<
    (Expr, int),
    Diagnostic,
>
    decreases toks.len() - p, 2 * k + 20,
{
    if k == 0 {
        spec_unary(texts, toks, p)
    } else {
        match spec_level(texts, toks, (k - 1) as u8, p) {
            Err(d) => Err(d),
            Ok((lhs, q)) => if q <= p || q > toks.len() {
                Err(error_at(toks, p))
            } else {
                spec_level_rest(texts, toks, k, p, lhs, q)
            },
        }
    }
}

/// Left-associative continuation of level `k`: `lhs`, which starts at token
/// `start`, has been read up to `q`.
pub open spec fn spec_level_rest(
    texts: Seq<Seq<u8>>,
    toks: Seq<SpannedToken>,
    k: u8,
    start: int,
    lhs: Expr,
    q: int,
) -> Result<(Expr, int), Diagnostic>
    decreases toks.len() - q, 2 * k + 19,
{
    if k == 0 || q < 0 || q >= toks.len() {
        Ok((lhs, q))
    } else {
        match level_op(k, toks[q].1) {
            None => Ok((lhs, q)),
            Some(op) => match spec_level(texts, toks, (k - 1) as u8, q + 1) {
                Err(d) => Err(d),
                Ok((rhs, q2)) => if q2 <= q || q2 > toks.len() {
                    Err(error_at(toks, q))
                } else {
                    spec_level_rest(
                        texts,
                        toks,
                        k,
                        start,
                        Expr::BinOp {
                            op,
                            lhs: Box::new(lhs),
                            rhs: Box::new(rhs),
                            span: span_from(toks, start, q2),
                        },
                        q2,
                    )
                },
            },
        }
    }
}

pub open spec fn spec_expr(texts: Seq<Seq<u8>>, toks: Seq<SpannedToken>, p: int) -> Result<
    (Expr, int),
    Diagnostic,
> {
    spec_level(texts, toks, 6, p)
}

/// Prefix operators, then an operand.
pub open spec fn spec_unary(texts: Seq<Seq<u8>>, toks: Seq<SpannedToken>, p: int) -> Result<
    (Expr, int),
    Diagnostic,
>
    decreases toks.len() - p, 19int,
{
    if 0 <= p < toks.len() && unary_op(toks[p].1) is Some {
        match spec_unary(texts, toks, p + 1) {
            Err(d) => Err(d),
            Ok((opr, q)) => Ok(
                (
                    Expr::UnOp {
                        op: unary_op(toks[p].1).unwrap(),
                        opr: Box::new(opr),
                        span: span_from(toks, p, q),
                    },
                    q,
                ),
            ),
        }
    } else {
        match spec_primary(texts, toks, p) {
            Err(d) => Err(d),
            Ok((e, q)) => if q <= p || q > toks.len() {
                Err(error_at(toks, p))
            } else {
                spec_postfix(texts, toks, p, e, q)
            },
        }
    }
}

/// `.name` accesses after an operand that starts at `start`.
pub open spec fn spec_postfix(
    texts: Seq<Seq<u8>>,
    toks: Seq<SpannedToken>,
    start: int,
    e: Expr,
    q: int,
) -> Result<(Expr, int), Diagnostic>
    decreases toks.len() - q, 18int,
{
    if 0 <= q < toks.len() && toks[q].1 == Token::Dot {
        if q + 1 < toks.len() && toks[q + 1].1 == Token::Name {
            spec_postfix(
                texts,
                toks,
                start,
                Expr::Dot {
                    lhs: Box::new(e),
                    rhs: tok_span(toks, q + 1),
                    span: span_from(toks, start, q + 2),
                },
                q + 2,
            )
        } else {
            Err(error_at(toks, q + 1))
        }
    } else {
        Ok((e, q))
    }
}

/// An operand: a literal, a name, an argument, a call, a struct literal or
/// a parenthesized expression.
pub open spec fn spec_primary(texts: Seq<Seq<u8>>, toks: Seq<SpannedToken>, p: int) -> Result<
    (Expr, int),
    Diagnostic,
>
    decreases toks.len() - p, 17int,
{
    if p < 0 || p >= toks.len() {
        Err(error_at(toks, p))
    } else {
        let sp = tok_span(toks, p);
        match toks[p].1 {
            Token::Number => Ok(
                (
                    Expr::Value {
                        value: Value::Number(
                            Number::Literal {
                                span: sp,
                                num: literal_num(tok_text(texts, toks, p)),
                                den: literal_den(tok_text(texts, toks, p)),
                            },
                        ),
                        span: sp,
                    },
                    p + 1,
                ),
            ),
            Token::Str => Ok((Expr::Value { value: Value::Str(sp), span: sp }, p + 1)),
            Token::True => Ok((Expr::Value { value: Value::Bool(true), span: sp }, p + 1)),
            Token::False => Ok((Expr::Value { value: Value::Bool(false), span: sp }, p + 1)),
            Token::Arg => Ok((Expr::Arg(sp), p + 1)),
            Token::LParen => match spec_level(texts, toks, 6, p + 1) {
                Err(d) => Err(d),
                Ok((e, q)) => if tok_at(toks, q) == Some(Token::RParen) {
                    Ok((e, q + 1))
                } else {
                    Err(error_at(toks, q))
                },
            },
            Token::Name => if tok_at(toks, p + 1) == Some(Token::LParen) {
                match spec_call_items(texts, toks, p + 2, Token::RParen) {
                    Err(d) => Err(d),
                    Ok(((args, kwargs), q)) => {
                        let span = span_from(toks, p, q);
                        match (spec_repr(tok_text(texts, toks, p)), kwargs) {
                            (Some(repr), List::Nil) => Ok(
                                (Expr::Repr { repr, args: Box::new(args), span }, q),
                            ),
                            _ => Ok(
                                (
                                    Expr::FuncCall {
                                        name: sp,
                                        args: Box::new(args),
                                        kwargs: Box::new(kwargs),
                                        span,
                                    },
                                    q,
                                ),
                            ),
                        }
                    },
                }
            } else if tok_at(toks, p + 1) == Some(Token::LBrace) && tok_at(toks, p + 2) == Some(
                Token::Name,
            ) && tok_at(toks, p + 3) == Some(Token::Colon) {
                match spec_fields(texts, toks, p + 2) {
                    Err(d) => Err(d),
                    Ok((fields, q)) => Ok(
                        (
                            Expr::StructLiteral {
                                name: sp,
                                fields: Box::new(fields),
                                span: span_from(toks, p, q),
                            },
                            q,
                        ),
                    ),
                }
            } else {
                Ok((Expr::Name(sp), p + 1))
            },
            _ => Err(error_at(toks, p)),
        }
    }
}

/// The items of a call up to and including `close`: positional arguments
/// and `name: value` arguments, separated by commas.
pub open spec fn spec_call_items(
    texts: Seq<Seq<u8>>,
    toks: Seq<SpannedToken>,
    p: int,
    close: Token,
) -> Result<((List<Expr>, List<Kwarg>), int), Diagnostic>
    decreases toks.len() - p, 40int,
{
    if tok_at(toks, p) == Some(close) {
        Ok(((List::Nil, List::Nil), p + 1))
    } else {
        spec_call_items1(texts, toks, p, close)
    }
}

/// At least one call item, then more after commas, up to `close`.
pub open spec fn spec_call_items1(
    texts: Seq<Seq<u8>>,
    toks: Seq<SpannedToken>,
    p: int,
    close: Token,
) -> Result<((List<Expr>, List<Kwarg>), int), Diagnostic>
    decreases toks.len() - p, 39int,
{
    let is_kwarg = tok_at(toks, p) == Some(Token::Name) && tok_at(toks, p + 1) == Some(
        Token::Colon,
    );
    let item = if is_kwarg {
        spec_level(texts, toks, 6, p + 2)
    } else {
        spec_level(texts, toks, 6, p)
    };
    match item {
        Err(d) => Err(d),
        Ok((e, q)) => if q <= p || q > toks.len() {
            Err(error_at(toks, p))
        } else {
            let rest = if tok_at(toks, q) == Some(close) {
                Ok(((List::Nil, List::Nil), q + 1))
            } else if tok_at(toks, q) == Some(Token::Comma) {
                spec_call_items1(texts, toks, q + 1, close)
            } else {
                Err(error_at(toks, q))
            };
            match rest {
                Err(d) => Err(d),
                Ok(((args, kwargs), q2)) => if is_kwarg {
                    Ok(
                        (
                            (
                                args,
                                List::Cons(
                                    Kwarg { name: tok_span(toks, p), value: e },
                                    Box::new(kwargs),
                                ),
                            ),
                            q2,
                        ),
                    )
                } else {
                    Ok(((List::Cons(e, Box::new(args)), kwargs), q2))
                },
            }
        },
    }
}

/// The fields `name: value` of a struct literal, up to and including `}`.
pub open spec fn spec_fields(texts: Seq<Seq<u8>>, toks: Seq<SpannedToken>, p: int) -> Result<
    (List<FieldValue>, int),
    Diagnostic,
>
    decreases toks.len() - p, 39int,
{
    if !(tok_at(toks, p) == Some(Token::Name)) {
        Err(error_at(toks, p))
    } else if !(tok_at(toks, p + 1) == Some(Token::Colon)) {
        Err(error_at(toks, p + 1))
    } else {
        match spec_level(texts, toks, 6, p + 2) {
            Err(d) => Err(d),
            Ok((e, q)) => if q <= p || q > toks.len() {
                Err(error_at(toks, p))
            } else {
                let rest = if tok_at(toks, q) == Some(Token::RBrace) {
                    Ok((List::Nil, q + 1))
                } else if tok_at(toks, q) == Some(Token::Comma) {
                    spec_fields(texts, toks, q + 1)
                } else {
                    Err(error_at(toks, q))
                };
                match rest {
                    Err(d) => Err(d),
                    Ok((fields, q2)) => Ok(
                        (
                            List::Cons(
                                FieldValue { name: tok_span(toks, p), value: e },
                                Box::new(fields),
                            ),
                            q2,
                        ),
                    ),
                }
            },
        }
    }
}

/// The block of the standard library named `t`, if any.
pub open spec fn spec_block_name(t: Seq<u8>) -> Option<Block> {
    if t == seq!['s' as u8, 'a' as u8, 'y' as u8] {
        Some(Block::Say)
    } else if t == seq!['t' as u8, 'h' as u8, 'i' as u8, 'n' as u8, 'k' as u8] {
        Some(Block::Think)
    } else if t == seq!['w' as u8, 'a' as u8, 'i' as u8, 't' as u8] {
        Some(Block::Wait)
    } else if t == seq!['b' as u8, 'r' as u8, 'o' as u8, 'a' as u8, 'd' as u8, 'c' as u8, 'a' as u8, 's' as u8, 't' as u8] {
        Some(Block::Broadcast)
    } else if t == seq!['b' as u8, 'r' as u8, 'o' as u8, 'a' as u8, 'd' as u8, 'c' as u8, 'a' as u8, 's' as u8, 't' as u8, '_' as u8, 'a' as u8, 'n' as u8, 'd' as u8, '_' as u8, 'w' as u8, 'a' as u8, 'i' as u8, 't' as u8] {
        Some(Block::BroadcastAndWait)
    } else if t == seq!['s' as u8, 't' as u8, 'o' as u8, 'p' as u8, '_' as u8, 'a' as u8, 'l' as u8, 'l' as u8] {
        Some(Block::StopAll)
    } else if t == seq!['s' as u8, 't' as u8, 'o' as u8, 'p' as u8, '_' as u8, 't' as u8, 'h' as u8, 'i' as u8, 's' as u8, '_' as u8, 's' as u8, 'c' as u8, 'r' as u8, 'i' as u8, 'p' as u8, 't' as u8] {
        Some(Block::StopThisScript)
    } else if t == seq!['s' as u8, 't' as u8, 'o' as u8, 'p' as u8, '_' as u8, 'o' as u8, 't' as u8, 'h' as u8, 'e' as u8, 'r' as u8, '_' as u8, 's' as u8, 'c' as u8, 'r' as u8, 'i' as u8, 'p' as u8, 't' as u8, 's' as u8] {
        Some(Block::StopOtherScripts)
    } else if t == seq!['c' as u8, 'l' as u8, 'o' as u8, 'n' as u8, 'e' as u8] {
        Some(Block::Clone)
    } else if t == seq!['d' as u8, 'e' as u8, 'l' as u8, 'e' as u8, 't' as u8, 'e' as u8, '_' as u8, 't' as u8, 'h' as u8, 'i' as u8, 's' as u8, '_' as u8, 'c' as u8, 'l' as u8, 'o' as u8, 'n' as u8, 'e' as u8] {
        Some(Block::DeleteThisClone)
    } else if t == seq!['m' as u8, 'o' as u8, 'v' as u8, 'e' as u8] {
        Some(Block::Move)
    } else if t == seq!['t' as u8, 'u' as u8, 'r' as u8, 'n' as u8, '_' as u8, 'l' as u8, 'e' as u8, 'f' as u8, 't' as u8] {
        Some(Block::TurnLeft)
    } else if t == seq!['t' as u8, 'u' as u8, 'r' as u8, 'n' as u8, '_' as u8, 'r' as u8, 'i' as u8, 'g' as u8, 'h' as u8, 't' as u8] {
        Some(Block::TurnRight)
    } else if t == seq!['s' as u8, 'e' as u8, 't' as u8, '_' as u8, 'x' as u8] {
        Some(Block::SetX)
    } else if t == seq!['s' as u8, 'e' as u8, 't' as u8, '_' as u8, 'y' as u8] {
        Some(Block::SetY)
    } else if t == seq!['c' as u8, 'h' as u8, 'a' as u8, 'n' as u8, 'g' as u8, 'e' as u8, '_' as u8, 'x' as u8] {
        Some(Block::ChangeX)
    } else if t == seq!['c' as u8, 'h' as u8, 'a' as u8, 'n' as u8, 'g' as u8, 'e' as u8, '_' as u8, 'y' as u8] {
        Some(Block::ChangeY)
    } else {
        None
    }
}

fn block_of(src: &[u8], s: usize, e: usize) -> (r: Option<Block>)
    requires
        s <= e <= src.len(),
    ensures
        r == spec_block_name(src@.subrange(s as int, e as int)),
{
    if eq_word(src, s, e, &['s' as u8, 'a' as u8, 'y' as u8]) {
        Some(Block::Say)
    } else if eq_word(src, s, e, &['t' as u8, 'h' as u8, 'i' as u8, 'n' as u8, 'k' as u8]) {
        Some(Block::Think)
    } else if eq_word(src, s, e, &['w' as u8, 'a' as u8, 'i' as u8, 't' as u8]) {
        Some(Block::Wait)
    } else if eq_word(src, s, e, &['b' as u8, 'r' as u8, 'o' as u8, 'a' as u8, 'd' as u8, 'c' as u8, 'a' as u8, 's' as u8, 't' as u8]) {
        Some(Block::Broadcast)
    } else if eq_word(src, s, e, &['b' as u8, 'r' as u8, 'o' as u8, 'a' as u8, 'd' as u8, 'c' as u8, 'a' as u8, 's' as u8, 't' as u8, '_' as u8, 'a' as u8, 'n' as u8, 'd' as u8, '_' as u8, 'w' as u8, 'a' as u8, 'i' as u8, 't' as u8]) {
        Some(Block::BroadcastAndWait)
    } else if eq_word(src, s, e, &['s' as u8, 't' as u8, 'o' as u8, 'p' as u8, '_' as u8, 'a' as u8, 'l' as u8, 'l' as u8]) {
        Some(Block::StopAll)
    } else if eq_word(src, s, e, &['s' as u8, 't' as u8, 'o' as u8, 'p' as u8, '_' as u8, 't' as u8, 'h' as u8, 'i' as u8, 's' as u8, '_' as u8, 's' as u8, 'c' as u8, 'r' as u8, 'i' as u8, 'p' as u8, 't' as u8]) {
        Some(Block::StopThisScript)
    } else if eq_word(src, s, e, &['s' as u8, 't' as u8, 'o' as u8, 'p' as u8, '_' as u8, 'o' as u8, 't' as u8, 'h' as u8, 'e' as u8, 'r' as u8, '_' as u8, 's' as u8, 'c' as u8, 'r' as u8, 'i' as u8, 'p' as u8, 't' as u8, 's' as u8]) {
        Some(Block::StopOtherScripts)
    } else if eq_word(src, s, e, &['c' as u8, 'l' as u8, 'o' as u8, 'n' as u8, 'e' as u8]) {
        Some(Block::Clone)
    } else if eq_word(src, s, e, &['d' as u8, 'e' as u8, 'l' as u8, 'e' as u8, 't' as u8, 'e' as u8, '_' as u8, 't' as u8, 'h' as u8, 'i' as u8, 's' as u8, '_' as u8, 'c' as u8, 'l' as u8, 'o' as u8, 'n' as u8, 'e' as u8]) {
        Some(Block::DeleteThisClone)
    } else if eq_word(src, s, e, &['m' as u8, 'o' as u8, 'v' as u8, 'e' as u8]) {
        Some(Block::Move)
    } else if eq_word(src, s, e, &['t' as u8, 'u' as u8, 'r' as u8, 'n' as u8, '_' as u8, 'l' as u8, 'e' as u8, 'f' as u8, 't' as u8]) {
        Some(Block::TurnLeft)
    } else if eq_word(src, s, e, &['t' as u8, 'u' as u8, 'r' as u8, 'n' as u8, '_' as u8, 'r' as u8, 'i' as u8, 'g' as u8, 'h' as u8, 't' as u8]) {
        Some(Block::TurnRight)
    } else if eq_word(src, s, e, &['s' as u8, 'e' as u8, 't' as u8, '_' as u8, 'x' as u8]) {
        Some(Block::SetX)
    } else if eq_word(src, s, e, &['s' as u8, 'e' as u8, 't' as u8, '_' as u8, 'y' as u8]) {
        Some(Block::SetY)
    } else if eq_word(src, s, e, &['c' as u8, 'h' as u8, 'a' as u8, 'n' as u8, 'g' as u8, 'e' as u8, '_' as u8, 'x' as u8]) {
        Some(Block::ChangeX)
    } else if eq_word(src, s, e, &['c' as u8, 'h' as u8, 'a' as u8, 'n' as u8, 'g' as u8, 'e' as u8, '_' as u8, 'y' as u8]) {
        Some(Block::ChangeY)
    } else {
        None
    }
}

/// The reporter of the standard library named `t`, if any.
pub open spec fn spec_repr(t: Seq<u8>) -> Option<Repr> {
    if t == seq!['r' as u8, 'a' as u8, 'n' as u8, 'd' as u8, 'o' as u8, 'm' as u8] {
        Some(Repr::Random)
    } else if t == seq!['t' as u8, 'i' as u8, 'm' as u8, 'e' as u8, 'r' as u8] {
        Some(Repr::Timer)
    } else if t == seq!['a' as u8, 'n' as u8, 's' as u8, 'w' as u8, 'e' as u8, 'r' as u8] {
        Some(Repr::Answer)
    } else if t == seq!['m' as u8, 'o' as u8, 'u' as u8, 's' as u8, 'e' as u8, '_' as u8, 'x' as u8] {
        Some(Repr::MouseX)
    } else if t == seq!['m' as u8, 'o' as u8, 'u' as u8, 's' as u8, 'e' as u8, '_' as u8, 'y' as u8] {
        Some(Repr::MouseY)
    } else if t == seq!['x' as u8, '_' as u8, 'p' as u8, 'o' as u8, 's' as u8, 'i' as u8, 't' as u8, 'i' as u8, 'o' as u8, 'n' as u8] {
        Some(Repr::XPosition)
    } else if t == seq!['y' as u8, '_' as u8, 'p' as u8, 'o' as u8, 's' as u8, 'i' as u8, 't' as u8, 'i' as u8, 'o' as u8, 'n' as u8] {
        Some(Repr::YPosition)
    } else if t == seq!['d' as u8, 'i' as u8, 'r' as u8, 'e' as u8, 'c' as u8, 't' as u8, 'i' as u8, 'o' as u8, 'n' as u8] {
        Some(Repr::Direction)
    } else {
        None
    }
}

fn repr_of(src: &[u8], s: usize, e: usize) -> (r: Option<Repr>)
    requires
        s <= e <= src.len(),
    ensures
        r == spec_repr(src@.subrange(s as int, e as int)),
{
    if eq_word(src, s, e, &['r' as u8, 'a' as u8, 'n' as u8, 'd' as u8, 'o' as u8, 'm' as u8]) {
        Some(Repr::Random)
    } else if eq_word(src, s, e, &['t' as u8, 'i' as u8, 'm' as u8, 'e' as u8, 'r' as u8]) {
        Some(Repr::Timer)
    } else if eq_word(src, s, e, &['a' as u8, 'n' as u8, 's' as u8, 'w' as u8, 'e' as u8, 'r' as u8]) {
        Some(Repr::Answer)
    } else if eq_word(src, s, e, &['m' as u8, 'o' as u8, 'u' as u8, 's' as u8, 'e' as u8, '_' as u8, 'x' as u8]) {
        Some(Repr::MouseX)
    } else if eq_word(src, s, e, &['m' as u8, 'o' as u8, 'u' as u8, 's' as u8, 'e' as u8, '_' as u8, 'y' as u8]) {
        Some(Repr::MouseY)
    } else if eq_word(src, s, e, &['x' as u8, '_' as u8, 'p' as u8, 'o' as u8, 's' as u8, 'i' as u8, 't' as u8, 'i' as u8, 'o' as u8, 'n' as u8]) {
        Some(Repr::XPosition)
    } else if eq_word(src, s, e, &['y' as u8, '_' as u8, 'p' as u8, 'o' as u8, 's' as u8, 'i' as u8, 't' as u8, 'i' as u8, 'o' as u8, 'n' as u8]) {
        Some(Repr::YPosition)
    } else if eq_word(src, s, e, &['d' as u8, 'i' as u8, 'r' as u8, 'e' as u8, 'c' as u8, 't' as u8, 'i' as u8, 'o' as u8, 'n' as u8]) {
        Some(Repr::Direction)
    } else {
        None
    }
}

/// The name of the statement `add value to list;`.
pub open spec fn add_word() -> Seq<u8> {
    seq!['a' as u8, 'd' as u8, 'd' as u8]
}

pub open spec fn spec_expect(toks: Seq<SpannedToken>, p: int, t: Token) -> Result<int, Diagnostic> {
    if tok_at(toks, p) == Some(t) {
        Ok(p + 1)
    } else {
        Err(error_at(toks, p))
    }
}

pub open spec fn spec_name_at(toks: Seq<SpannedToken>, p: int) -> Result<(Span, int), Diagnostic> {
    if tok_at(toks, p) == Some(Token::Name) {
        Ok((tok_span(toks, p), p + 1))
    } else {
        Err(error_at(toks, p))
    }
}

/// An optional `: type` annotation.
pub open spec fn spec_opt_type(toks: Seq<SpannedToken>, p: int) -> Result<
    (Option<Span>, int),
    Diagnostic,
> {
    if tok_at(toks, p) == Some(Token::Colon) {
        match spec_name_at(toks, p + 1) {
            Err(d) => Err(d),
            Ok((t, q)) => Ok((Some(t), q)),
        }
    } else {
        Ok((None, p))
    }
}

/// An expression followed by `;`.
pub open spec fn spec_expr_semi(texts: Seq<Seq<u8>>, toks: Seq<SpannedToken>, p: int) -> Result<
    (Expr, int),
    Diagnostic,
> {
    match spec_expr(texts, toks, p) {
        Err(d) => Err(d),
        Ok((e, q)) => match spec_expect(toks, q, Token::Semi) {
            Err(d) => Err(d),
            Ok(q1) => Ok((e, q1)),
        },
    }
}

/// `{ statements }`
pub open spec fn spec_body(texts: Seq<Seq<u8>>, toks: Seq<SpannedToken>, p: int) -> Result<
    (List<Stmt>, int),
    Diagnostic,
>
    decreases toks.len() - p, 3int,
{
    if tok_at(toks, p) == Some(Token::LBrace) {
        spec_stmts(texts, toks, p + 1)
    } else {
        Err(error_at(toks, p))
    }
}

/// Statements up to and including `}`.
pub open spec fn spec_stmts(texts: Seq<Seq<u8>>, toks: Seq<SpannedToken>, p: int) -> Result<
    (List<Stmt>, int),
    Diagnostic,
>
    decreases toks.len() - p, 2int,
{
    if tok_at(toks, p) == Some(Token::RBrace) {
        Ok((List::Nil, p + 1))
    } else {
        match spec_stmt(texts, toks, p) {
            Err(d) => Err(d),
            Ok((s, q)) => if q <= p || q > toks.len() {
                Err(error_at(toks, p))
            } else {
                match spec_stmts(texts, toks, q) {
                    Err(d) => Err(d),
                    Ok((rest, q2)) => Ok((List::Cons(s, Box::new(rest)), q2)),
                }
            },
        }
    }
}

pub open spec fn spec_stmt(texts: Seq<Seq<u8>>, toks: Seq<SpannedToken>, p: int) -> Result<
    (Stmt, int),
    Diagnostic,
>
    decreases toks.len() - p, 1int,
{
    if p < 0 || p >= toks.len() {
        Err(error_at(toks, p))
    } else {
        match toks[p].1 {
            Token::If => spec_if(texts, toks, p),
            Token::While => spec_loop(texts, toks, p),
            Token::Repeat => spec_loop(texts, toks, p),
            Token::Forever => spec_forever(texts, toks, p),
            Token::Return => spec_return(texts, toks, p),
            Token::Let => spec_let(texts, toks, p),
            Token::Show => spec_show_hide(toks, p),
            Token::Hide => spec_show_hide(toks, p),
            Token::Delete => spec_delete(texts, toks, p),
            Token::Insert => spec_insert(texts, toks, p),
            Token::Name => spec_name_stmt(texts, toks, p),
            _ => Err(error_at(toks, p)),
        }
    }
}

/// `if cond { .. }`, optionally followed by `else if ..` or `else { .. }`.
pub open spec fn spec_if(texts: Seq<Seq<u8>>, toks: Seq<SpannedToken>, p: int) -> Result<
    (Stmt, int),
    Diagnostic,
>
    decreases toks.len() - p, 0int,
{
    match spec_expr(texts, toks, p + 1) {
        Err(d) => Err(d),
        Ok((cond, q)) => if q <= p || q > toks.len() {
            Err(error_at(toks, p))
        } else {
            match spec_body(texts, toks, q) {
                Err(d) => Err(d),
                Ok((if_body, q2)) => if q2 <= q || q2 > toks.len() {
                    Err(error_at(toks, q))
                } else {
                    match spec_else(texts, toks, q2) {
                        Err(d) => Err(d),
                        Ok((else_body, q3)) => Ok(
                            (
                                Stmt::Branch {
                                    cond,
                                    if_body: Box::new(if_body),
                                    else_body: Box::new(else_body),
                                },
                                q3,
                            ),
                        ),
                    }
                },
            }
        },
    }
}

/// What follows the body of an `if`: `else if ..`, whose statement is the
/// whole else body, `else { .. }`, or nothing.
pub open spec fn spec_else(texts: Seq<Seq<u8>>, toks: Seq<SpannedToken>, q: int) -> Result<
    (List<Stmt>, int),
    Diagnostic,
>
    decreases toks.len() - q, 0int,
{
    if tok_at(toks, q) == Some(Token::Else) {
        if tok_at(toks, q + 1) == Some(Token::If) {
            match spec_stmt(texts, toks, q + 1) {
                Err(d) => Err(d),
                Ok((nested, q2)) => Ok((List::Cons(nested, Box::new(List::Nil)), q2)),
            }
        } else {
            spec_body(texts, toks, q + 1)
        }
    } else {
        Ok((List::Nil, q))
    }
}

/// `while cond { .. }`, which runs until `!cond`, or `repeat times { .. }`.
pub open spec fn spec_loop(texts: Seq<Seq<u8>>, toks: Seq<SpannedToken>, p: int) -> Result<
    (Stmt, int),
    Diagnostic,
>
    decreases toks.len() - p, 0int,
{
    match spec_expr(texts, toks, p + 1) {
        Err(d) => Err(d),
        Ok((e, q)) => if q <= p + 1 || q > toks.len() {
            Err(error_at(toks, p))
        } else {
            match spec_body(texts, toks, q) {
                Err(d) => Err(d),
                Ok((body, q2)) => if toks[p].1 == Token::While {
                    Ok(
                        (
                            Stmt::Until {
                                cond: Expr::UnOp {
                                    op: UnOp::Not,
                                    opr: Box::new(e),
                                    span: span_from(toks, p + 1, q),
                                },
                                body: Box::new(body),
                            },
                            q2,
                        ),
                    )
                } else {
                    Ok((Stmt::Repeat { times: e, body: Box::new(body) }, q2))
                },
            }
        },
    }
}

/// `forever { .. }`
pub open spec fn spec_forever(texts: Seq<Seq<u8>>, toks: Seq<SpannedToken>, p: int) -> Result<
    (Stmt, int),
    Diagnostic,
>
    decreases toks.len() - p, 0int,
{
    if p < 0 || p >= toks.len() {
        Err(error_at(toks, p))
    } else {
        match spec_body(texts, toks, p + 1) {
            Err(d) => Err(d),
            Ok((body, q)) => Ok((Stmt::Forever { body: Box::new(body), span: tok_span(toks, p) }, q)),
        }
    }
}

/// `return value;`
pub open spec fn spec_return(texts: Seq<Seq<u8>>, toks: Seq<SpannedToken>, p: int) -> Result<
    (Stmt, int),
    Diagnostic,
> {
    match spec_expr_semi(texts, toks, p + 1) {
        Err(d) => Err(d),
        Ok((value, q)) => Ok((Stmt::Return { value, span: span_from(toks, p, q) }, q)),
    }
}

/// `let name: type = value;`, the type being optional.
pub open spec fn spec_let(texts: Seq<Seq<u8>>, toks: Seq<SpannedToken>, p: int) -> Result<
    (Stmt, int),
    Diagnostic,
> {
    match spec_name_at(toks, p + 1) {
        Err(d) => Err(d),
        Ok((name, q1)) => match spec_opt_type(toks, q1) {
            Err(d) => Err(d),
            Ok((ty, q2)) => match spec_expect(toks, q2, Token::Assign) {
                Err(d) => Err(d),
                Ok(q3) => match spec_expr_semi(texts, toks, q3) {
                    Err(d) => Err(d),
                    Ok((value, q4)) => Ok((Stmt::SetVar { name, value, ty, is_local: true }, q4)),
                },
            },
        },
    }
}

/// `show name;` or `hide name;`
pub open spec fn spec_show_hide(toks: Seq<SpannedToken>, p: int) -> Result<(Stmt, int), Diagnostic> {
    match spec_name_at(toks, p + 1) {
        Err(d) => Err(d),
        Ok((name, q)) => match spec_expect(toks, q, Token::Semi) {
            Err(d) => Err(d),
            Ok(q1) => if toks[p].1 == Token::Show {
                Ok((Stmt::Show(name), q1))
            } else {
                Ok((Stmt::Hide(name), q1))
            },
        },
    }
}

/// `delete list;` or `delete list[index];`
pub open spec fn spec_delete(texts: Seq<Seq<u8>>, toks: Seq<SpannedToken>, p: int) -> Result<
    (Stmt, int),
    Diagnostic,
> {
    match spec_name_at(toks, p + 1) {
        Err(d) => Err(d),
        Ok((list, q)) => if tok_at(toks, q) == Some(Token::Semi) {
            Ok((Stmt::DeleteList(list), q + 1))
        } else if tok_at(toks, q) == Some(Token::LBracket) {
            match spec_expr(texts, toks, q + 1) {
                Err(d) => Err(d),
                Ok((index, q1)) => match spec_expect(toks, q1, Token::RBracket) {
                    Err(d) => Err(d),
                    Ok(q2) => match spec_expect(toks, q2, Token::Semi) {
                        Err(d) => Err(d),
                        Ok(q3) => Ok((Stmt::DeleteListIndex { list, index }, q3)),
                    },
                },
            }
        } else {
            Err(error_at(toks, q))
        },
    }
}

/// `insert value at list[index];`
pub open spec fn spec_insert(texts: Seq<Seq<u8>>, toks: Seq<SpannedToken>, p: int) -> Result<
    (Stmt, int),
    Diagnostic,
> {
    match spec_expr(texts, toks, p + 1) {
        Err(d) => Err(d),
        Ok((value, q)) => match spec_expect(toks, q, Token::At) {
            Err(d) => Err(d),
            Ok(q1) => match spec_name_at(toks, q1) {
                Err(d) => Err(d),
                Ok((list, q2)) => match spec_expect(toks, q2, Token::LBracket) {
                    Err(d) => Err(d),
                    Ok(q3) => match spec_expr(texts, toks, q3) {
                        Err(d) => Err(d),
                        Ok((index, q4)) => match spec_expect(toks, q4, Token::RBracket) {
                            Err(d) => Err(d),
                            Ok(q5) => match spec_expect(toks, q5, Token::Semi) {
                                Err(d) => Err(d),
                                Ok(q6) => Ok((Stmt::InsertAtList { list, index, value }, q6)),
                            },
                        },
                    },
                },
            },
        },
    }
}

/// `add value to list;`
pub open spec fn spec_add(texts: Seq<Seq<u8>>, toks: Seq<SpannedToken>, p: int) -> Result<
    (Stmt, int),
    Diagnostic,
> {
    match spec_expr(texts, toks, p + 1) {
        Err(d) => Err(d),
        Ok((value, q)) => match spec_expect(toks, q, Token::To) {
            Err(d) => Err(d),
            Ok(q1) => match spec_name_at(toks, q1) {
                Err(d) => Err(d),
                Ok((list, q2)) => match spec_expect(toks, q2, Token::Semi) {
                    Err(d) => Err(d),
                    Ok(q3) => Ok((Stmt::AddToList { list, value }, q3)),
                },
            },
        },
    }
}

/// A call statement of the name at `p`: a block of the standard library
/// if the name is one, else a call of a function of the sprite.
pub open spec fn call_stmt(
    texts: Seq<Seq<u8>>,
    toks: Seq<SpannedToken>,
    p: int,
    args: List<Expr>,
    kwargs: List<Kwarg>,
    span: Span,
) -> Stmt {
    match spec_block_name(tok_text(texts, toks, p)) {
        Some(block) => Stmt::Block { block, args: Box::new(args), kwargs: Box::new(kwargs), span },
        None => Stmt::ProcCall {
            name: tok_span(toks, p),
            args: Box::new(args),
            kwargs: Box::new(kwargs),
            span,
        },
    }
}

/// A statement that starts with a name: an assignment, an update, a list
/// element assignment, `add .. to ..;`, or a call with or without
/// parentheses.
pub open spec fn spec_name_stmt(texts: Seq<Seq<u8>>, toks: Seq<SpannedToken>, p: int) -> Result<
    (Stmt, int),
    Diagnostic,
> {
    let name = tok_span(toks, p);
    let t1 = tok_at(toks, p + 1);
    if t1 == Some(Token::Assign) {
        match spec_expr_semi(texts, toks, p + 2) {
            Err(d) => Err(d),
            Ok((value, q)) => Ok((Stmt::SetVar { name, value, ty: None, is_local: false }, q)),
        }
    } else if t1 == Some(Token::PlusAssign) {
        match spec_expr_semi(texts, toks, p + 2) {
            Err(d) => Err(d),
            Ok((value, q)) => Ok((Stmt::ChangeVar { name, value }, q)),
        }
    } else if t1 == Some(Token::MinusAssign) {
        match spec_expr_semi(texts, toks, p + 2) {
            Err(d) => Err(d),
            Ok((value, q)) => Ok(
                (
                    Stmt::ChangeVar {
                        name,
                        value: Expr::UnOp {
                            op: UnOp::Minus,
                            opr: Box::new(value),
                            span: span_from(toks, p + 2, q - 1),
                        },
                    },
                    q,
                ),
            ),
        }
    } else if t1 is Some && assign_op(t1.unwrap()) is Some {
        match spec_expr_semi(texts, toks, p + 2) {
            Err(d) => Err(d),
            Ok((value, q)) => Ok(
                (
                    Stmt::SetVar {
                        name,
                        value: Expr::BinOp {
                            op: assign_op(t1.unwrap()).unwrap(),
                            lhs: Box::new(Expr::Name(name)),
                            rhs: Box::new(value),
                            span: span_from(toks, p, q - 1),
                        },
                        ty: None,
                        is_local: false,
                    },
                    q,
                ),
            ),
        }
    } else if t1 == Some(Token::PlusPlus) || t1 == Some(Token::MinusMinus) {
        match spec_expect(toks, p + 2, Token::Semi) {
            Err(d) => Err(d),
            Ok(q) => {
                let sp = tok_span(toks, p + 1);
                let one = Expr::Value { value: Value::Number(Number::Int(1)), span: sp };
                let value = if t1 == Some(Token::PlusPlus) {
                    one
                } else {
                    Expr::UnOp { op: UnOp::Minus, opr: Box::new(one), span: sp }
                };
                Ok((Stmt::ChangeVar { name, value }, q))
            },
        }
    } else if t1 == Some(Token::LBracket) {
        match spec_expr(texts, toks, p + 2) {
            Err(d) => Err(d),
            Ok((index, q)) => match spec_expect(toks, q, Token::RBracket) {
                Err(d) => Err(d),
                Ok(q1) => match spec_expect(toks, q1, Token::Assign) {
                    Err(d) => Err(d),
                    Ok(q2) => match spec_expr_semi(texts, toks, q2) {
                        Err(d) => Err(d),
                        Ok((value, q3)) => Ok((Stmt::SetListIndex { list: name, index, value }, q3)),
                    },
                },
            },
        }
    } else if t1 == Some(Token::LParen) {
        match spec_call_items(texts, toks, p + 2, Token::RParen) {
            Err(d) => Err(d),
            Ok(((args, kwargs), q)) => match spec_expect(toks, q, Token::Semi) {
                Err(d) => Err(d),
                Ok(q1) => Ok((call_stmt(texts, toks, p, args, kwargs, span_from(toks, p, q1)), q1)),
            },
        }
    } else if tok_text(texts, toks, p) == add_word() && spec_add(texts, toks, p) is Ok {
        spec_add(texts, toks, p)
    } else {
        match spec_call_items(texts, toks, p + 1, Token::Semi) {
            Err(d) => Err(d),
            Ok(((args, kwargs), q)) => Ok(
                (call_stmt(texts, toks, p, args, kwargs, span_from(toks, p, q)), q),
            ),
        }
    }
}

/// A declaration of a sprite source.
pub enum Item {
    Costumes(List<Span>),
    Sounds(List<Span>),
    Var(VarDecl),
    List(ListDecl),
    Struct(StructDecl),
    Enum(EnumDecl),
    Proc(Proc),
    Func(Func),
    Event(Event),
}

/// `lit` is a faithful valuation of the literals of the scripts of `item`.
pub open spec fn item_fits(item: Item, lit: spec_fn(Span) -> (int, int)) -> bool {
    match item {
        Item::Proc(p) => literals_fit_stmts(p.body, lit),
        Item::Func(f) => literals_fit_stmts(f.body, lit),
        Item::Event(e) => literals_fit_stmts(e.body, lit),
        _ => true,
    }
}

/// The sprite with `item` declared before the declarations of `sp`.
pub open spec fn add_item(item: Item, sp: Sprite) -> Sprite {
    match item {
        Item::Costumes(l) => Sprite { costumes: spec_append(l, sp.costumes), ..sp },
        Item::Sounds(l) => Sprite { sounds: spec_append(l, sp.sounds), ..sp },
        Item::Var(v) => Sprite { variables: List::Cons(v, Box::new(sp.variables)), ..sp },
        Item::List(l) => Sprite { lists: List::Cons(l, Box::new(sp.lists)), ..sp },
        Item::Struct(s) => Sprite { structs: List::Cons(s, Box::new(sp.structs)), ..sp },
        Item::Enum(e) => Sprite { enums: List::Cons(e, Box::new(sp.enums)), ..sp },
        Item::Proc(p) => Sprite { procs: List::Cons(p, Box::new(sp.procs)), ..sp },
        Item::Func(f) => Sprite { funcs: List::Cons(f, Box::new(sp.funcs)), ..sp },
        Item::Event(e) => Sprite { events: List::Cons(e, Box::new(sp.events)), ..sp },
    }
}

/// The list `a` followed by the list `b`.
pub open spec fn spec_append(a: List<Span>, b: List<Span>) -> List<Span>
    decreases a,
{
    match a {
        List::Nil => b,
        List::Cons(x, rest) => List::Cons(x, Box::new(spec_append(*rest, b))),
    }
}

/// Names separated by commas, up to and including `close`.
pub open spec fn spec_names(toks: Seq<SpannedToken>, p: int, close: Token) -> Result<
    (List<Span>, int),
    Diagnostic,
> {
    if tok_at(toks, p) == Some(close) {
        Ok((List::Nil, p + 1))
    } else {
        spec_names1(toks, p, close)
    }
}

pub open spec fn spec_names1(toks: Seq<SpannedToken>, p: int, close: Token) -> Result<
    (List<Span>, int),
    Diagnostic,
>
    decreases toks.len() - p,
{
    if !(tok_at(toks, p) == Some(Token::Name)) {
        Err(error_at(toks, p))
    } else if tok_at(toks, p + 1) == Some(close) {
        Ok((List::Cons(tok_span(toks, p), Box::new(List::Nil)), p + 2))
    } else if tok_at(toks, p + 1) == Some(Token::Comma) {
        match spec_names1(toks, p + 2, close) {
            Err(d) => Err(d),
            Ok((rest, q)) => Ok((List::Cons(tok_span(toks, p), Box::new(rest)), q)),
        }
    } else {
        Err(error_at(toks, p + 1))
    }
}

/// String literals separated by commas, up to and including `;`.
pub open spec fn spec_strings(toks: Seq<SpannedToken>, p: int) -> Result<
    (List<Span>, int),
    Diagnostic,
>
    decreases toks.len() - p,
{
    if !(tok_at(toks, p) == Some(Token::Str)) {
        Err(error_at(toks, p))
    } else if tok_at(toks, p + 1) == Some(Token::Semi) {
        Ok((List::Cons(tok_span(toks, p), Box::new(List::Nil)), p + 2))
    } else if tok_at(toks, p + 1) == Some(Token::Comma) {
        match spec_strings(toks, p + 2) {
            Err(d) => Err(d),
            Ok((rest, q)) => Ok((List::Cons(tok_span(toks, p), Box::new(rest)), q)),
        }
    } else {
        Err(error_at(toks, p + 1))
    }
}

/// `function name(args) { .. }` or `function name(args): type { .. }`, from
/// the name at `p` on.
pub open spec fn spec_function(texts: Seq<Seq<u8>>, toks: Seq<SpannedToken>, p: int, warp: bool) -> Result<
    (Item, int),
    Diagnostic,
> {
    match spec_name_at(toks, p) {
        Err(d) => Err(d),
        Ok((name, q1)) => match spec_expect(toks, q1, Token::LParen) {
            Err(d) => Err(d),
            Ok(q2) => match spec_names(toks, q2, Token::RParen) {
                Err(d) => Err(d),
                Ok((args, q3)) => if tok_at(toks, q3) == Some(Token::Colon) {
                    match spec_name_at(toks, q3 + 1) {
                        Err(d) => Err(d),
                        Ok((ty, q4)) => match spec_body(texts, toks, q4) {
                            Err(d) => Err(d),
                            Ok((body, q5)) => Ok(
                                (Item::Func(Func { name, args, warp, ty, body }), q5),
                            ),
                        },
                    }
                } else {
                    match spec_body(texts, toks, q3) {
                        Err(d) => Err(d),
                        Ok((body, q4)) => Ok((Item::Proc(Proc { name, args, warp, body }), q4)),
                    }
                },
            },
        },
    }
}

/// `onflag() { .. }` and the like: the parentheses hold the string of
/// `onkey`, `on` and `onbackdrop`.
pub open spec fn spec_event(texts: Seq<Seq<u8>>, toks: Seq<SpannedToken>, p: int) -> Result<
    (Item, int),
    Diagnostic,
> {
    let t = toks[p].1;
    let with_string = t == Token::OnKey || t == Token::On || t == Token::OnBackdrop;
    match spec_expect(toks, p + 1, Token::LParen) {
        Err(d) => Err(d),
        Ok(q1) => {
            let q2 = if with_string {
                spec_expect(toks, q1, Token::Str)
            } else {
                Ok(q1)
            };
            match q2 {
                Err(d) => Err(d),
                Ok(q2) => match spec_expect(toks, q2, Token::RParen) {
                    Err(d) => Err(d),
                    Ok(q3) => match spec_body(texts, toks, q3) {
                        Err(d) => Err(d),
                        Ok((body, q4)) => {
                            let kind = match t {
                                Token::OnKey => EventKind::OnKey(tok_span(toks, q1)),
                                Token::On => EventKind::OnBroadcast(tok_span(toks, q1)),
                                Token::OnBackdrop => EventKind::OnBackdrop(tok_span(toks, q1)),
                                Token::OnClick => EventKind::OnClick,
                                Token::OnClone => EventKind::OnClone,
                                _ => EventKind::OnFlag,
                            };
                            Ok((Item::Event(Event { kind, body }), q4))
                        },
                    },
                },
            }
        },
    }
}

/// `var name: type = value;`, the type and the value being optional.
pub open spec fn spec_var(texts: Seq<Seq<u8>>, toks: Seq<SpannedToken>, p: int) -> Result<
    (Item, int),
    Diagnostic,
> {
    match spec_name_at(toks, p + 1) {
        Err(d) => Err(d),
        Ok((name, q1)) => match spec_opt_type(toks, q1) {
            Err(d) => Err(d),
            Ok((ty, q2)) => if tok_at(toks, q2) == Some(Token::Assign) {
                match spec_expr_semi(texts, toks, q2 + 1) {
                    Err(d) => Err(d),
                    Ok((value, q3)) => Ok(
                        (Item::Var(VarDecl { name, ty, default: Some(value) }), q3),
                    ),
                }
            } else if tok_at(toks, q2) == Some(Token::Semi) {
                Ok((Item::Var(VarDecl { name, ty, default: None }), q2 + 1))
            } else {
                Err(error_at(toks, q2))
            },
        },
    }
}

/// `list name: type;`, the type being optional.
pub open spec fn spec_list_decl(toks: Seq<SpannedToken>, p: int) -> Result<(Item, int), Diagnostic> {
    match spec_name_at(toks, p + 1) {
        Err(d) => Err(d),
        Ok((name, q1)) => match spec_opt_type(toks, q1) {
            Err(d) => Err(d),
            Ok((ty, q2)) => match spec_expect(toks, q2, Token::Semi) {
                Err(d) => Err(d),
                Ok(q3) => Ok((Item::List(ListDecl { name, ty }), q3)),
            },
        },
    }
}

/// `struct Name { field, .. }` or `enum Name { Variant, .. }`.
pub open spec fn spec_struct_enum(toks: Seq<SpannedToken>, p: int) -> Result<
    (Item, int),
    Diagnostic,
> {
    match spec_name_at(toks, p + 1) {
        Err(d) => Err(d),
        Ok((name, q1)) => match spec_expect(toks, q1, Token::LBrace) {
            Err(d) => Err(d),
            Ok(q2) => match spec_names(toks, q2, Token::RBrace) {
                Err(d) => Err(d),
                Ok((names, q3)) => if toks[p].1 == Token::Struct {
                    Ok((Item::Struct(StructDecl { name, fields: names }), q3))
                } else {
                    Ok((Item::Enum(EnumDecl { name, variants: names }), q3))
                },
            },
        },
    }
}

/// The declaration at `p`.
pub open spec fn spec_item(texts: Seq<Seq<u8>>, toks: Seq<SpannedToken>, p: int) -> Result<
    (Item, int),
    Diagnostic,
> {
    if p < 0 || p >= toks.len() {
        Err(error_at(toks, p))
    } else {
        match toks[p].1 {
            Token::Costumes => match spec_strings(toks, p + 1) {
                Err(d) => Err(d),
                Ok((l, q)) => Ok((Item::Costumes(l), q)),
            },
            Token::Sounds => match spec_strings(toks, p + 1) {
                Err(d) => Err(d),
                Ok((l, q)) => Ok((Item::Sounds(l), q)),
            },
            Token::Var => spec_var(texts, toks, p),
            Token::List => spec_list_decl(toks, p),
            Token::Struct => spec_struct_enum(toks, p),
            Token::Enum => spec_struct_enum(toks, p),
            Token::Function => spec_function(texts, toks, p + 1, true),
            Token::Nowarp => match spec_expect(toks, p + 1, Token::Function) {
                Err(d) => Err(d),
                Ok(q) => spec_function(texts, toks, q, false),
            },
            Token::OnFlag => spec_event(texts, toks, p),
            Token::OnClick => spec_event(texts, toks, p),
            Token::OnClone => spec_event(texts, toks, p),
            Token::OnKey => spec_event(texts, toks, p),
            Token::On => spec_event(texts, toks, p),
            Token::OnBackdrop => spec_event(texts, toks, p),
            _ => Err(error_at(toks, p)),
        }
    }
}

/// The declarations from `p` to the end: the sprite of those that were
/// read, and the diagnostic of the first one that could not be.
pub open spec fn spec_items(texts: Seq<Seq<u8>>, toks: Seq<SpannedToken>, p: int) -> (
    Sprite,
    Option<Diagnostic>,
)
    decreases toks.len() - p,
{
    if p < 0 || p >= toks.len() {
        (Sprite::spec_empty(), None)
    } else {
        match spec_item(texts, toks, p) {
            Err(d) => (Sprite::spec_empty(), Some(d)),
            Ok((item, q)) => if q <= p || q > toks.len() {
                (Sprite::spec_empty(), Some(error_at(toks, p)))
            } else {
                let (sp, d) = spec_items(texts, toks, q);
                (add_item(item, sp), d)
            },
        }
    }
}

/// A whole sprite source.
pub open spec fn spec_sprite(texts: Seq<Seq<u8>>, toks: Seq<SpannedToken>) -> (Sprite, Option<Diagnostic>) {
    spec_items(texts, toks, 0)
}


fn tok_is(toks: &Vec<SpannedToken>, p: usize, t: Token) -> (r: bool)
    ensures
        r == (tok_at(toks@, p as int) == Some(t)),
{
    p < toks.len() && toks[p].1 == t
}

fn error_at_exec(toks: &Vec<SpannedToken>, p: usize) -> (d: Diagnostic)
    ensures
        d == error_at(toks@, p as int),
{
    if p < toks.len() {
        Diagnostic {
            kind: DiagnosticKind::UnrecognizedToken,
            span: Span { start: toks[p].0, end: toks[p].2 },
        }
    } else if toks.len() == 0 {
        Diagnostic { kind: DiagnosticKind::UnrecognizedEof, span: Span { start: 0, end: 0 } }
    } else {
        let end = toks[toks.len() - 1].2;
        Diagnostic { kind: DiagnosticKind::UnrecognizedEof, span: Span { start: end, end } }
    }
}

fn span_of(toks: &Vec<SpannedToken>, p: usize) -> (s: Span)
    requires
        p < toks.len(),
    ensures
        s == tok_span(toks@, p as int),
{
    Span { start: toks[p].0, end: toks[p].2 }
}

fn span_between(toks: &Vec<SpannedToken>, p: usize, q: usize) -> (s: Span)
    requires
        p < q <= toks.len(),
    ensures
        s == span_from(toks@, p as int, q as int),
{
    Span { start: toks[p].0, end: toks[q - 1].2 }
}

fn level_op_of(k: u8, t: Token) -> (r: Option<BinOp>)
    ensures
        r == level_op(k, t),
{
    if k == 6 {
        match t {
            Token::PipePipe => Some(BinOp::Or),
            _ => None,
        }
    } else if k == 5 {
        match t {
            Token::AmpAmp => Some(BinOp::And),
            _ => None,
        }
    } else if k == 4 {
        match t {
            Token::Eq => Some(BinOp::Eq),
            Token::Ne => Some(BinOp::Ne),
            Token::Lt => Some(BinOp::Lt),
            Token::Le => Some(BinOp::Le),
            Token::Gt => Some(BinOp::Gt),
            Token::Ge => Some(BinOp::Ge),
            Token::In => Some(BinOp::In),
            _ => None,
        }
    } else if k == 3 {
        match t {
            Token::Amp => Some(BinOp::Join),
            _ => None,
        }
    } else if k == 2 {
        match t {
            Token::Plus => Some(BinOp::Add),
            Token::Minus => Some(BinOp::Sub),
            _ => None,
        }
    } else if k == 1 {
        match t {
            Token::Star => Some(BinOp::Mul),
            Token::Slash => Some(BinOp::Div),
            Token::Percent => Some(BinOp::Mod),
            Token::Div => Some(BinOp::FloorDiv),
            _ => None,
        }
    } else {
        None
    }
}

fn unary_op_of(t: Token) -> (r: Option<UnOp>)
    ensures
        r == unary_op(t),
{
    match t {
        Token::Bang => Some(UnOp::Not),
        Token::Minus => Some(UnOp::Minus),
        Token::Round => Some(UnOp::Round),
        Token::Abs => Some(UnOp::Abs),
        Token::Floor => Some(UnOp::Floor),
        Token::Ceil => Some(UnOp::Ceil),
        Token::Sqrt => Some(UnOp::Sqrt),
        Token::Sin => Some(UnOp::Sin),
        Token::Cos => Some(UnOp::Cos),
        Token::Tan => Some(UnOp::Tan),
        Token::Asin => Some(UnOp::Asin),
        Token::Acos => Some(UnOp::Acos),
        Token::Atan => Some(UnOp::Atan),
        Token::Ln => Some(UnOp::Ln),
        Token::Log => Some(UnOp::Log),
        Token::Antiln => Some(UnOp::Antiln),
        Token::Antilog => Some(UnOp::Antilog),
        Token::Length => Some(UnOp::Length),
        _ => None,
    }
}

fn assign_op_of(t: Token) -> (r: Option<BinOp>)
    ensures
        r == assign_op(t),
{
    match t {
        Token::StarAssign => Some(BinOp::Mul),
        Token::SlashAssign => Some(BinOp::Div),
        Token::PercentAssign => Some(BinOp::Mod),
        Token::AmpAssign => Some(BinOp::Join),
        Token::DivAssign => Some(BinOp::FloorDiv),
        _ => None,
    }
}

fn parse_level(src: &[u8], toks: &Vec<SpannedToken>, k: u8, p: usize) -> (r: Result<
    (Expr, usize),
    Diagnostic,
>)
    requires
        tokens_fit(src@, toks@),
        p <= toks.len(),
        k <= 6,
    ensures
        same(r, spec_level(token_texts(src@, toks@), toks@, k, p as int)),
        advances(r, p as int, toks.len() as int),
        r matches Ok((e, _)) ==> literals_fit(e, source_values(src@)),
    decreases toks.len() - p, 2 * k + 20,
{
    if k == 0 {
        parse_unary(src, toks, p)
    } else {
        match parse_level(src, toks, k - 1, p) {
            Err(d) => Err(d),
            Ok((lhs, q)) => parse_level_rest(src, toks, k, p, lhs, q),
        }
    }
}

fn parse_level_rest(
    src: &[u8],
    toks: &Vec<SpannedToken>,
    k: u8,
    start: usize,
    lhs: Expr,
    q: usize,
) -> (r: Result<(Expr, usize), Diagnostic>)
    requires
        tokens_fit(src@, toks@),
        start < q <= toks.len(),
        literals_fit(lhs, source_values(src@)),
        1 <= k <= 6,
    ensures
        same(r, spec_level_rest(token_texts(src@, toks@), toks@, k, start as int, lhs, q as int)),
        r matches Ok((_, q2)) ==> q <= q2 <= toks.len(),
        r matches Ok((e, _)) ==> literals_fit(e, source_values(src@)),
    decreases toks.len() - q, 2 * k + 19,
{
    if q >= toks.len() {
        return Ok((lhs, q));
    }
    match level_op_of(k, toks[q].1) {
        None => Ok((lhs, q)),
        Some(op) => match parse_level(src, toks, k - 1, q + 1) {
            Err(d) => Err(d),
            Ok((rhs, q2)) => {
                let span = span_between(toks, start, q2);
                parse_level_rest(
                    src,
                    toks,
                    k,
                    start,
                    Expr::BinOp { op, lhs: Box::new(lhs), rhs: Box::new(rhs), span },
                    q2,
                )
            },
        },
    }
}

fn parse_expr(src: &[u8], toks: &Vec<SpannedToken>, p: usize) -> (r: Result<(Expr, usize), Diagnostic>)
    requires
        tokens_fit(src@, toks@),
        p <= toks.len(),
    ensures
        same(r, spec_expr(token_texts(src@, toks@), toks@, p as int)),
        advances(r, p as int, toks.len() as int),
        r matches Ok((e, _)) ==> literals_fit(e, source_values(src@)),
{
    parse_level(src, toks, 6, p)
}

fn parse_unary(src: &[u8], toks: &Vec<SpannedToken>, p: usize) -> (r: Result<(Expr, usize), Diagnostic>)
    requires
        tokens_fit(src@, toks@),
        p <= toks.len(),
    ensures
        same(r, spec_unary(token_texts(src@, toks@), toks@, p as int)),
        advances(r, p as int, toks.len() as int),
        r matches Ok((e, _)) ==> literals_fit(e, source_values(src@)),
    decreases toks.len() - p, 19int,
{
    let uop = if p < toks.len() {
        unary_op_of(toks[p].1)
    } else {
        None
    };
    match uop {
        Some(op) => match parse_unary(src, toks, p + 1) {
            Err(d) => Err(d),
            Ok((opr, q)) => {
                let span = span_between(toks, p, q);
                Ok((Expr::UnOp { op, opr: Box::new(opr), span }, q))
            },
        },
        None => match parse_primary(src, toks, p) {
            Err(d) => Err(d),
            Ok((e, q)) => parse_postfix(src, toks, p, e, q),
        },
    }
}

fn parse_postfix(src: &[u8], toks: &Vec<SpannedToken>, start: usize, e: Expr, q: usize) -> (r:
    Result<(Expr, usize), Diagnostic>)
    requires
        tokens_fit(src@, toks@),
        start < q <= toks.len(),
        literals_fit(e, source_values(src@)),
    ensures
        same(r, spec_postfix(token_texts(src@, toks@), toks@, start as int, e, q as int)),
        r matches Ok((_, q2)) ==> q <= q2 <= toks.len(),
        r matches Ok((e, _)) ==> literals_fit(e, source_values(src@)),
    decreases toks.len() - q, 18int,
{
    if q < toks.len() && toks[q].1 == Token::Dot {
        if q + 1 < toks.len() && toks[q + 1].1 == Token::Name {
            let rhs = span_of(toks, q + 1);
            let span = span_between(toks, start, q + 2);
            parse_postfix(src, toks, start, Expr::Dot { lhs: Box::new(e), rhs, span }, q + 2)
        } else {
            Err(error_at_exec(toks, q + 1))
        }
    } else {
        Ok((e, q))
    }
}

fn parse_primary(src: &[u8], toks: &Vec<SpannedToken>, p: usize) -> (r: Result<(Expr, usize), Diagnostic>)
    requires
        tokens_fit(src@, toks@),
        p <= toks.len(),
    ensures
        same(r, spec_primary(token_texts(src@, toks@), toks@, p as int)),
        advances(r, p as int, toks.len() as int),
        r matches Ok((e, _)) ==> literals_fit(e, source_values(src@)),
    decreases toks.len() - p, 17int,
{
    if p >= toks.len() {
        return Err(error_at_exec(toks, p));
    }
    let sp = span_of(toks, p);
    match toks[p].1 {
        Token::Number => {
            proof {
                assert(toks@[p as int].0 <= toks@[p as int].2 <= src@.len());
            }
            let (num, den) = literal_digits(src, toks[p].0, toks[p].2);
            proof {
                lemma_source_value_fits(src@, sp);
            }
            Ok(
                (
                    Expr::Value {
                        value: Value::Number(Number::Literal { span: sp, num, den }),
                        span: sp,
                    },
                    p + 1,
                ),
            )
        },
        Token::Str => Ok((Expr::Value { value: Value::Str(sp), span: sp }, p + 1)),
        Token::True => Ok((Expr::Value { value: Value::Bool(true), span: sp }, p + 1)),
        Token::False => Ok((Expr::Value { value: Value::Bool(false), span: sp }, p + 1)),
        Token::Arg => Ok((Expr::Arg(sp), p + 1)),
        Token::LParen => match parse_level(src, toks, 6, p + 1) {
            Err(d) => Err(d),
            Ok((e, q)) => if tok_is(toks, q, Token::RParen) {
                Ok((e, q + 1))
            } else {
                Err(error_at_exec(toks, q))
            },
        },
        Token::Name => if tok_is(toks, p + 1, Token::LParen) {
            match parse_call_items(src, toks, p + 2, Token::RParen) {
                Err(d) => Err(d),
                Ok(((args, kwargs), q)) => {
                    let span = span_between(toks, p, q);
                    proof {
                        assert(toks@[p as int].0 <= toks@[p as int].2 <= src@.len());
                    }
                    match repr_of(src, toks[p].0, toks[p].2) {
                        Some(repr) => match kwargs {
                            List::Nil => Ok((Expr::Repr { repr, args: Box::new(args), span }, q)),
                            kwargs => Ok(
                                (
                                    Expr::FuncCall {
                                        name: sp,
                                        args: Box::new(args),
                                        kwargs: Box::new(kwargs),
                                        span,
                                    },
                                    q,
                                ),
                            ),
                        },
                        None => Ok(
                            (
                                Expr::FuncCall {
                                    name: sp,
                                    args: Box::new(args),
                                    kwargs: Box::new(kwargs),
                                    span,
                                },
                                q,
                            ),
                        ),
                    }
                },
            }
        } else if tok_is(toks, p + 1, Token::LBrace) && tok_is(toks, p + 2, Token::Name) && tok_is(
            toks,
            p + 3,
            Token::Colon,
        ) {
            match parse_fields(src, toks, p + 2) {
                Err(d) => Err(d),
                Ok((fields, q)) => {
                    let span = span_between(toks, p, q);
                    Ok((Expr::StructLiteral { name: sp, fields: Box::new(fields), span }, q))
                },
            }
        } else {
            Ok((Expr::Name(sp), p + 1))
        },
        _ => Err(error_at_exec(toks, p)),
    }
}

fn parse_call_items(src: &[u8], toks: &Vec<SpannedToken>, p: usize, close: Token) -> (r: Result<
    ((List<Expr>, List<Kwarg>), usize),
    Diagnostic,
>)
    requires
        tokens_fit(src@, toks@),
        p <= toks.len(),
    ensures
        same(r, spec_call_items(token_texts(src@, toks@), toks@, p as int, close)),
        advances(r, p as int, toks.len() as int),
        r matches Ok(((a, k), _)) ==> literals_fit_list(a, source_values(src@)) && literals_fit_kwargs(k, source_values(src@)),
    decreases toks.len() - p, 40int,
{
    if tok_is(toks, p, close) {
        Ok(((List::Nil, List::Nil), p + 1))
    } else {
        parse_call_items1(src, toks, p, close)
    }
}

fn parse_call_items1(src: &[u8], toks: &Vec<SpannedToken>, p: usize, close: Token) -> (r: Result<
    ((List<Expr>, List<Kwarg>), usize),
    Diagnostic,
>)
    requires
        tokens_fit(src@, toks@),
        p <= toks.len(),
    ensures
        same(r, spec_call_items1(token_texts(src@, toks@), toks@, p as int, close)),
        advances(r, p as int, toks.len() as int),
        r matches Ok(((a, k), _)) ==> literals_fit_list(a, source_values(src@)) && literals_fit_kwargs(k, source_values(src@)),
    decreases toks.len() - p, 39int,
{
    let is_kwarg = tok_is(toks, p, Token::Name) && tok_is(toks, p + 1, Token::Colon);
    let item = if is_kwarg {
        parse_level(src, toks, 6, p + 2)
    } else {
        parse_level(src, toks, 6, p)
    };
    match item {
        Err(d) => Err(d),
        Ok((e, q)) => {
            let rest = if tok_is(toks, q, close) {
                Ok(((List::Nil, List::Nil), q + 1))
            } else if tok_is(toks, q, Token::Comma) {
                parse_call_items1(src, toks, q + 1, close)
            } else {
                Err(error_at_exec(toks, q))
            };
            match rest {
                Err(d) => Err(d),
                Ok(((args, kwargs), q2)) => {
                    assert(literals_fit(e, source_values(src@)));
                    assert(literals_fit_list(args, source_values(src@)));
                    assert(literals_fit_kwargs(kwargs, source_values(src@)));
                    if is_kwarg {
                        let name = span_of(toks, p);
                        let ghost out = List::Cons(Kwarg { name, value: e }, Box::new(kwargs));
                        assert(literals_fit(out->Cons_0.value, source_values(src@)));
                        assert(literals_fit_kwargs(out, source_values(src@)));
                        Ok(((args, List::Cons(Kwarg { name, value: e }, Box::new(kwargs))), q2))
                    } else {
                        let ghost out = List::Cons(e, Box::new(args));
                        assert(literals_fit_list(out, source_values(src@)));
                        Ok(((List::Cons(e, Box::new(args)), kwargs), q2))
                    }
                },
            }
        },
    }
}

fn parse_fields(src: &[u8], toks: &Vec<SpannedToken>, p: usize) -> (r: Result<
    (List<FieldValue>, usize),
    Diagnostic,
>)
    requires
        tokens_fit(src@, toks@),
        p <= toks.len(),
    ensures
        same(r, spec_fields(token_texts(src@, toks@), toks@, p as int)),
        advances(r, p as int, toks.len() as int),
        r matches Ok((f, _)) ==> literals_fit_fields(f, source_values(src@)),
    decreases toks.len() - p, 39int,
{
    if !tok_is(toks, p, Token::Name) {
        Err(error_at_exec(toks, p))
    } else if !tok_is(toks, p + 1, Token::Colon) {
        Err(error_at_exec(toks, p + 1))
    } else {
        match parse_level(src, toks, 6, p + 2) {
            Err(d) => Err(d),
            Ok((e, q)) => {
                let rest = if tok_is(toks, q, Token::RBrace) {
                    Ok((List::Nil, q + 1))
                } else if tok_is(toks, q, Token::Comma) {
                    parse_fields(src, toks, q + 1)
                } else {
                    Err(error_at_exec(toks, q))
                };
                match rest {
                    Err(d) => Err(d),
                    Ok((fields, q2)) => {
                        let name = span_of(toks, p);
                        assert(literals_fit_fields(fields, source_values(src@)));
                        let ghost out = List::Cons(FieldValue { name, value: e }, Box::new(fields));
                        assert(literals_fit(out->Cons_0.value, source_values(src@)));
                        assert(literals_fit_fields(out, source_values(src@)));
                        Ok((List::Cons(FieldValue { name, value: e }, Box::new(fields)), q2))
                    },
                }
            },
        }
    }
}

fn expect(toks: &Vec<SpannedToken>, p: usize, t: Token) -> (r: Result<usize, Diagnostic>)
    requires
        p <= toks.len(),
    ensures
        r matches Ok(q) ==> spec_expect(toks@, p as int, t) == Ok::<int, Diagnostic>(q as int) && q
            == p + 1 && q <= toks.len(),
        r matches Err(d) ==> spec_expect(toks@, p as int, t) == Err::<int, Diagnostic>(d),
{
    if tok_is(toks, p, t) {
        Ok(p + 1)
    } else {
        Err(error_at_exec(toks, p))
    }
}

fn name_at(toks: &Vec<SpannedToken>, p: usize) -> (r: Result<(Span, usize), Diagnostic>)
    requires
        p <= toks.len(),
    ensures
        same(r, spec_name_at(toks@, p as int)),
        r matches Ok((_, q)) ==> q == p + 1 && q <= toks.len(),
{
    if tok_is(toks, p, Token::Name) {
        Ok((span_of(toks, p), p + 1))
    } else {
        Err(error_at_exec(toks, p))
    }
}

fn opt_type(toks: &Vec<SpannedToken>, p: usize) -> (r: Result<(Option<Span>, usize), Diagnostic>)
    requires
        p <= toks.len(),
    ensures
        same(r, spec_opt_type(toks@, p as int)),
        r matches Ok((_, q)) ==> p <= q <= toks.len(),
{
    if tok_is(toks, p, Token::Colon) {
        match name_at(toks, p + 1) {
            Err(d) => Err(d),
            Ok((t, q)) => Ok((Some(t), q)),
        }
    } else {
        Ok((None, p))
    }
}

fn parse_expr_semi(src: &[u8], toks: &Vec<SpannedToken>, p: usize) -> (r: Result<
    (Expr, usize),
    Diagnostic,
>)
    requires
        tokens_fit(src@, toks@),
        p <= toks.len(),
    ensures
        same(r, spec_expr_semi(token_texts(src@, toks@), toks@, p as int)),
        r matches Ok((_, q)) ==> p + 1 < q <= toks.len(),
        r matches Ok((e, _)) ==> literals_fit(e, source_values(src@)),
{
    match parse_expr(src, toks, p) {
        Err(d) => Err(d),
        Ok((e, q)) => match expect(toks, q, Token::Semi) {
            Err(d) => Err(d),
            Ok(q1) => Ok((e, q1)),
        },
    }
}

fn parse_body(src: &[u8], toks: &Vec<SpannedToken>, p: usize) -> (r: Result<
    (List<Stmt>, usize),
    Diagnostic,
>)
    requires
        tokens_fit(src@, toks@),
        p <= toks.len(),
    ensures
        same(r, spec_body(token_texts(src@, toks@), toks@, p as int)),
        advances(r, p as int, toks.len() as int),
        r matches Ok((b, _)) ==> literals_fit_stmts(b, source_values(src@)),
    decreases toks.len() - p, 3int,
{
    if tok_is(toks, p, Token::LBrace) {
        parse_stmts(src, toks, p + 1)
    } else {
        Err(error_at_exec(toks, p))
    }
}

fn parse_stmts(src: &[u8], toks: &Vec<SpannedToken>, p: usize) -> (r: Result<
    (List<Stmt>, usize),
    Diagnostic,
>)
    requires
        tokens_fit(src@, toks@),
        p <= toks.len(),
    ensures
        same(r, spec_stmts(token_texts(src@, toks@), toks@, p as int)),
        advances(r, p as int, toks.len() as int),
        r matches Ok((b, _)) ==> literals_fit_stmts(b, source_values(src@)),
    decreases toks.len() - p, 2int,
{
    if tok_is(toks, p, Token::RBrace) {
        Ok((List::Nil, p + 1))
    } else {
        match parse_stmt(src, toks, p) {
            Err(d) => Err(d),
            Ok((s, q)) => match parse_stmts(src, toks, q) {
                Err(d) => Err(d),
                Ok((rest, q2)) => Ok((List::Cons(s, Box::new(rest)), q2)),
            },
        }
    }
}

fn parse_stmt(src: &[u8], toks: &Vec<SpannedToken>, p: usize) -> (r: Result<(Stmt, usize), Diagnostic>)
    requires
        tokens_fit(src@, toks@),
        p <= toks.len(),
    ensures
        same(r, spec_stmt(token_texts(src@, toks@), toks@, p as int)),
        advances(r, p as int, toks.len() as int),
        r matches Ok((st, _)) ==> literals_fit_stmt(st, source_values(src@)),
    decreases toks.len() - p, 1int,
{
    if p >= toks.len() {
        return Err(error_at_exec(toks, p));
    }
    match toks[p].1 {
        Token::If => parse_if(src, toks, p),
        Token::While => parse_loop(src, toks, p),
        Token::Repeat => parse_loop(src, toks, p),
        Token::Forever => parse_forever(src, toks, p),
        Token::Return => parse_return(src, toks, p),
        Token::Let => parse_let(src, toks, p),
        Token::Show => parse_show_hide(toks, p),
        Token::Hide => parse_show_hide(toks, p),
        Token::Delete => parse_delete(src, toks, p),
        Token::Insert => parse_insert(src, toks, p),
        Token::Name => parse_name_stmt(src, toks, p),
        _ => Err(error_at_exec(toks, p)),
    }
}

fn parse_if(src: &[u8], toks: &Vec<SpannedToken>, p: usize) -> (r: Result<(Stmt, usize), Diagnostic>)
    requires
        tokens_fit(src@, toks@),
        p < toks.len(),
    ensures
        same(r, spec_if(token_texts(src@, toks@), toks@, p as int)),
        advances(r, p as int, toks.len() as int),
        r matches Ok((st, _)) ==> literals_fit_stmt(st, source_values(src@)),
    decreases toks.len() - p, 0int,
{
    match parse_expr(src, toks, p + 1) {
        Err(d) => Err(d),
        Ok((cond, q)) => match parse_body(src, toks, q) {
            Err(d) => Err(d),
            Ok((if_body, q2)) => match parse_else(src, toks, q2) {
                Err(d) => Err(d),
                Ok((else_body, q3)) => Ok(
                    (
                        Stmt::Branch {
                            cond,
                            if_body: Box::new(if_body),
                            else_body: Box::new(else_body),
                        },
                        q3,
                    ),
                ),
            },
        },
    }
}

#[verifier::rlimit(30)]
fn parse_else(src: &[u8], toks: &Vec<SpannedToken>, q: usize) -> (r: Result<
    (List<Stmt>, usize),
    Diagnostic,
>)
    requires
        tokens_fit(src@, toks@),
        q <= toks.len(),
    ensures
        same(r, spec_else(token_texts(src@, toks@), toks@, q as int)),
        r matches Ok((_, q2)) ==> q <= q2 <= toks.len(),
        r matches Ok((b, _)) ==> literals_fit_stmts(b, source_values(src@)),
    decreases toks.len() - q, 0int,
{
    if tok_is(toks, q, Token::Else) {
        if tok_is(toks, q + 1, Token::If) {
            let nested_r = parse_stmt(src, toks, q + 1);
            match nested_r {
                Err(d) => Err(d),
                Ok((nested, q2)) => {
                    let ghost lit = source_values(src@);
                    let ghost g = nested;
                    assert(literals_fit_stmt(g, lit));
                    let tail: List<Stmt> = List::Nil;
                    assert(literals_fit_stmts(tail, lit));
                    let out = List::Cons(nested, Box::new(tail));
                    assert(literals_fit_stmts(out, lit));
                    Ok((out, q2))
                },
            }
        } else {
            parse_body(src, toks, q + 1)
        }
    } else {
        Ok((List::Nil, q))
    }
}

fn parse_loop(src: &[u8], toks: &Vec<SpannedToken>, p: usize) -> (r: Result<(Stmt, usize), Diagnostic>)
    requires
        tokens_fit(src@, toks@),
        p < toks.len(),
    ensures
        same(r, spec_loop(token_texts(src@, toks@), toks@, p as int)),
        advances(r, p as int, toks.len() as int),
        r matches Ok((st, _)) ==> literals_fit_stmt(st, source_values(src@)),
    decreases toks.len() - p, 0int,
{
    match parse_expr(src, toks, p + 1) {
        Err(d) => Err(d),
        Ok((e, q)) => match parse_body(src, toks, q) {
            Err(d) => Err(d),
            Ok((body, q2)) => if toks[p].1 == Token::While {
                let span = span_between(toks, p + 1, q);
                Ok(
                    (
                        Stmt::Until {
                            cond: Expr::UnOp { op: UnOp::Not, opr: Box::new(e), span },
                            body: Box::new(body),
                        },
                        q2,
                    ),
                )
            } else {
                Ok((Stmt::Repeat { times: e, body: Box::new(body) }, q2))
            },
        },
    }
}

fn parse_forever(src: &[u8], toks: &Vec<SpannedToken>, p: usize) -> (r: Result<
    (Stmt, usize),
    Diagnostic,
>)
    requires
        tokens_fit(src@, toks@),
        p < toks.len(),
    ensures
        same(r, spec_forever(token_texts(src@, toks@), toks@, p as int)),
        advances(r, p as int, toks.len() as int),
        r matches Ok((st, _)) ==> literals_fit_stmt(st, source_values(src@)),
    decreases toks.len() - p, 0int,
{
    match parse_body(src, toks, p + 1) {
        Err(d) => Err(d),
        Ok((body, q)) => Ok((Stmt::Forever { body: Box::new(body), span: span_of(toks, p) }, q)),
    }
}

fn parse_return(src: &[u8], toks: &Vec<SpannedToken>, p: usize) -> (r: Result<
    (Stmt, usize),
    Diagnostic,
>)
    requires
        tokens_fit(src@, toks@),
        p < toks.len(),
    ensures
        same(r, spec_return(token_texts(src@, toks@), toks@, p as int)),
        advances(r, p as int, toks.len() as int),
        r matches Ok((st, _)) ==> literals_fit_stmt(st, source_values(src@)),
{
    match parse_expr_semi(src, toks, p + 1) {
        Err(d) => Err(d),
        Ok((value, q)) => Ok((Stmt::Return { value, span: span_between(toks, p, q) }, q)),
    }
}

fn parse_let(src: &[u8], toks: &Vec<SpannedToken>, p: usize) -> (r: Result<(Stmt, usize), Diagnostic>)
    requires
        tokens_fit(src@, toks@),
        p < toks.len(),
    ensures
        same(r, spec_let(token_texts(src@, toks@), toks@, p as int)),
        advances(r, p as int, toks.len() as int),
        r matches Ok((st, _)) ==> literals_fit_stmt(st, source_values(src@)),
{
    match name_at(toks, p + 1) {
        Err(d) => Err(d),
        Ok((name, q1)) => match opt_type(toks, q1) {
            Err(d) => Err(d),
            Ok((ty, q2)) => match expect(toks, q2, Token::Assign) {
                Err(d) => Err(d),
                Ok(q3) => match parse_expr_semi(src, toks, q3) {
                    Err(d) => Err(d),
                    Ok((value, q4)) => Ok((Stmt::SetVar { name, value, ty, is_local: true }, q4)),
                },
            },
        },
    }
}

fn parse_show_hide(toks: &Vec<SpannedToken>, p: usize) -> (r: Result<(Stmt, usize), Diagnostic>)
    requires
        p < toks.len(),
    ensures
        same(r, spec_show_hide(toks@, p as int)),
        advances(r, p as int, toks.len() as int),
{
    match name_at(toks, p + 1) {
        Err(d) => Err(d),
        Ok((name, q)) => match expect(toks, q, Token::Semi) {
            Err(d) => Err(d),
            Ok(q1) => if toks[p].1 == Token::Show {
                Ok((Stmt::Show(name), q1))
            } else {
                Ok((Stmt::Hide(name), q1))
            },
        },
    }
}

fn parse_delete(src: &[u8], toks: &Vec<SpannedToken>, p: usize) -> (r: Result<
    (Stmt, usize),
    Diagnostic,
>)
    requires
        tokens_fit(src@, toks@),
        p < toks.len(),
    ensures
        same(r, spec_delete(token_texts(src@, toks@), toks@, p as int)),
        advances(r, p as int, toks.len() as int),
        r matches Ok((st, _)) ==> literals_fit_stmt(st, source_values(src@)),
{
    match name_at(toks, p + 1) {
        Err(d) => Err(d),
        Ok((list, q)) => if tok_is(toks, q, Token::Semi) {
            Ok((Stmt::DeleteList(list), q + 1))
        } else if tok_is(toks, q, Token::LBracket) {
            match parse_expr(src, toks, q + 1) {
                Err(d) => Err(d),
                Ok((index, q1)) => match expect(toks, q1, Token::RBracket) {
                    Err(d) => Err(d),
                    Ok(q2) => match expect(toks, q2, Token::Semi) {
                        Err(d) => Err(d),
                        Ok(q3) => Ok((Stmt::DeleteListIndex { list, index }, q3)),
                    },
                },
            }
        } else {
            Err(error_at_exec(toks, q))
        },
    }
}

fn parse_insert(src: &[u8], toks: &Vec<SpannedToken>, p: usize) -> (r: Result<
    (Stmt, usize),
    Diagnostic,
>)
    requires
        tokens_fit(src@, toks@),
        p < toks.len(),
    ensures
        same(r, spec_insert(token_texts(src@, toks@), toks@, p as int)),
        advances(r, p as int, toks.len() as int),
        r matches Ok((st, _)) ==> literals_fit_stmt(st, source_values(src@)),
{
    match parse_expr(src, toks, p + 1) {
        Err(d) => Err(d),
        Ok((value, q)) => match expect(toks, q, Token::At) {
            Err(d) => Err(d),
            Ok(q1) => match name_at(toks, q1) {
                Err(d) => Err(d),
                Ok((list, q2)) => match expect(toks, q2, Token::LBracket) {
                    Err(d) => Err(d),
                    Ok(q3) => match parse_expr(src, toks, q3) {
                        Err(d) => Err(d),
                        Ok((index, q4)) => match expect(toks, q4, Token::RBracket) {
                            Err(d) => Err(d),
                            Ok(q5) => match expect(toks, q5, Token::Semi) {
                                Err(d) => Err(d),
                                Ok(q6) => Ok((Stmt::InsertAtList { list, index, value }, q6)),
                            },
                        },
                    },
                },
            },
        },
    }
}

fn parse_add(src: &[u8], toks: &Vec<SpannedToken>, p: usize) -> (r: Result<(Stmt, usize), Diagnostic>)
    requires
        tokens_fit(src@, toks@),
        p < toks.len(),
    ensures
        same(r, spec_add(token_texts(src@, toks@), toks@, p as int)),
        advances(r, p as int, toks.len() as int),
        r matches Ok((st, _)) ==> literals_fit_stmt(st, source_values(src@)),
{
    match parse_expr(src, toks, p + 1) {
        Err(d) => Err(d),
        Ok((value, q)) => match expect(toks, q, Token::To) {
            Err(d) => Err(d),
            Ok(q1) => match name_at(toks, q1) {
                Err(d) => Err(d),
                Ok((list, q2)) => match expect(toks, q2, Token::Semi) {
                    Err(d) => Err(d),
                    Ok(q3) => Ok((Stmt::AddToList { list, value }, q3)),
                },
            },
        },
    }
}

fn make_call_stmt(
    src: &[u8],
    toks: &Vec<SpannedToken>,
    p: usize,
    args: List<Expr>,
    kwargs: List<Kwarg>,
    span: Span,
) -> (s: Stmt)
    requires
        tokens_fit(src@, toks@),
        p < toks.len(),
        literals_fit_list(args, source_values(src@)),
        literals_fit_kwargs(kwargs, source_values(src@)),
    ensures
        s == call_stmt(token_texts(src@, toks@), toks@, p as int, args, kwargs, span),
        literals_fit_stmt(s, source_values(src@)),
{
    proof {
        assert(toks@[p as int].0 <= toks@[p as int].2 <= src@.len());
    }
    match block_of(src, toks[p].0, toks[p].2) {
        Some(block) => Stmt::Block { block, args: Box::new(args), kwargs: Box::new(kwargs), span },
        None => Stmt::ProcCall {
            name: span_of(toks, p),
            args: Box::new(args),
            kwargs: Box::new(kwargs),
            span,
        },
    }
}

/// The assignments `name = e;`, `name += e;`, `name -= e;`, `name op= e;`
/// and the steps `name++;`, `name--;`.
fn parse_assign_stmt(src: &[u8], toks: &Vec<SpannedToken>, p: usize, t: Token) -> (r: Result<
    (Stmt, usize),
    Diagnostic,
>)
    requires
        tokens_fit(src@, toks@),
        p + 1 < toks.len(),
        toks@[p + 1].1 == t,
        t == Token::Assign || t == Token::PlusAssign || t == Token::MinusAssign || assign_op(t) is Some
            || t == Token::PlusPlus || t == Token::MinusMinus,
    ensures
        same(r, spec_name_stmt(token_texts(src@, toks@), toks@, p as int)),
        advances(r, p as int, toks.len() as int),
        r matches Ok((st, _)) ==> literals_fit_stmt(st, source_values(src@)),
{
    let name = span_of(toks, p);
    let t1 = Some(t);
    let compound = assign_op_of(t);
    if t1 == Some(Token::Assign) {
        match parse_expr_semi(src, toks, p + 2) {
            Err(d) => Err(d),
            Ok((value, q)) => {
                let st = Stmt::SetVar { name, value, ty: None, is_local: false };
                assert(literals_fit_stmt(st, source_values(src@)));
                Ok((st, q))
            },
        }
    } else if t1 == Some(Token::PlusAssign) {
        match parse_expr_semi(src, toks, p + 2) {
            Err(d) => Err(d),
            Ok((value, q)) => {
                let st = Stmt::ChangeVar { name, value };
                assert(literals_fit_stmt(st, source_values(src@)));
                Ok((st, q))
            },
        }
    } else if t1 == Some(Token::MinusAssign) {
        match parse_expr_semi(src, toks, p + 2) {
            Err(d) => Err(d),
            Ok((value, q)) => {
                let span = span_between(toks, p + 2, q - 1);
                let negated = Expr::UnOp { op: UnOp::Minus, opr: Box::new(value), span };
                assert(literals_fit(negated, source_values(src@)));
                let st = Stmt::ChangeVar { name, value: negated };
                assert(literals_fit_stmt(st, source_values(src@)));
                Ok((st, q))
            },
        }
    } else if compound.is_some() {
        match parse_expr_semi(src, toks, p + 2) {
            Err(d) => Err(d),
            Ok((value, q)) => {
                let span = span_between(toks, p, q - 1);
                let lhs = Expr::Name(name);
                assert(literals_fit(lhs, source_values(src@)));
                let combined = Expr::BinOp {
                    op: compound.unwrap(),
                    lhs: Box::new(lhs),
                    rhs: Box::new(value),
                    span,
                };
                assert(literals_fit(combined, source_values(src@)));
                let st = Stmt::SetVar { name, value: combined, ty: None, is_local: false };
                assert(literals_fit_stmt(st, source_values(src@)));
                Ok((st, q))
            },
        }
    } else {
        match expect(toks, p + 2, Token::Semi) {
            Err(d) => Err(d),
            Ok(q) => {
                let sp = span_of(toks, p + 1);
                let one = Expr::Value { value: Value::Number(Number::Int(1)), span: sp };
                assert(literals_fit(one, source_values(src@)));
                let value = if t1 == Some(Token::PlusPlus) {
                    one
                } else {
                    Expr::UnOp { op: UnOp::Minus, opr: Box::new(one), span: sp }
                };
                assert(literals_fit(value, source_values(src@)));
                let st = Stmt::ChangeVar { name, value };
                assert(literals_fit_stmt(st, source_values(src@)));
                Ok((st, q))
            },
        }
    }
}

#[verifier::rlimit(40)]
fn parse_name_stmt(src: &[u8], toks: &Vec<SpannedToken>, p: usize) -> (r: Result<
    (Stmt, usize),
    Diagnostic,
>)
    requires
        tokens_fit(src@, toks@),
        p < toks.len(),
    ensures
        same(r, spec_name_stmt(token_texts(src@, toks@), toks@, p as int)),
        advances(r, p as int, toks.len() as int),
        r matches Ok((st, _)) ==> literals_fit_stmt(st, source_values(src@)),
{
    let name = span_of(toks, p);
    let t1 = if p + 1 < toks.len() {
        Some(toks[p + 1].1)
    } else {
        None
    };
    let compound = match t1 {
        Some(t) => assign_op_of(t),
        None => None,
    };
    if t1 == Some(Token::Assign) || t1 == Some(Token::PlusAssign) || t1 == Some(Token::MinusAssign)
        || compound.is_some() || t1 == Some(Token::PlusPlus) || t1 == Some(Token::MinusMinus) {
        parse_assign_stmt(src, toks, p, t1.unwrap())
    } else if t1 == Some(Token::LBracket) {
        match parse_expr(src, toks, p + 2) {
            Err(d) => Err(d),
            Ok((index, q)) => match expect(toks, q, Token::RBracket) {
                Err(d) => Err(d),
                Ok(q1) => match expect(toks, q1, Token::Assign) {
                    Err(d) => Err(d),
                    Ok(q2) => match parse_expr_semi(src, toks, q2) {
                        Err(d) => Err(d),
                        Ok((value, q3)) => Ok((Stmt::SetListIndex { list: name, index, value }, q3)),
                    },
                },
            },
        }
    } else if t1 == Some(Token::LParen) {
        match parse_call_items(src, toks, p + 2, Token::RParen) {
            Err(d) => Err(d),
            Ok(((args, kwargs), q)) => match expect(toks, q, Token::Semi) {
                Err(d) => Err(d),
                Ok(q1) => {
                    let span = span_between(toks, p, q1);
                    Ok((make_call_stmt(src, toks, p, args, kwargs, span), q1))
                },
            },
        }
    } else {
        proof {
            assert(toks@[p as int].0 <= toks@[p as int].2 <= src@.len());
        }
        let add = if eq_word(src, toks[p].0, toks[p].2, &['a' as u8, 'd' as u8, 'd' as u8]) {
            parse_add(src, toks, p)
        } else {
            Err(error_at_exec(toks, p))
        };
        match add {
            Ok(r) => Ok(r),
            Err(_) => match parse_call_items(src, toks, p + 1, Token::Semi) {
                Err(d) => Err(d),
                Ok(((args, kwargs), q)) => {
                    let span = span_between(toks, p, q);
                    Ok((make_call_stmt(src, toks, p, args, kwargs, span), q))
                },
            },
        }
    }
}

fn add_item_exec(item: Item, sp: Sprite, Ghost(lit): Ghost<spec_fn(Span) -> (int, int)>) -> (r:
    Sprite)
    ensures
        r == add_item(item, sp),
        item_fits(item, lit) && literals_fit_sprite(sp, lit) ==> literals_fit_sprite(r, lit),
{
    let Sprite { costumes, sounds, variables, lists, structs, enums, procs, funcs, events } = sp;
    match item {
        Item::Costumes(l) => {
            let costumes = append(l, costumes);
            Sprite { costumes, sounds, variables, lists, structs, enums, procs, funcs, events }
        },
        Item::Sounds(l) => {
            let sounds = append(l, sounds);
            Sprite { costumes, sounds, variables, lists, structs, enums, procs, funcs, events }
        },
        Item::Var(v) => {
            let variables = List::Cons(v, Box::new(variables));
            Sprite { costumes, sounds, variables, lists, structs, enums, procs, funcs, events }
        },
        Item::List(l) => {
            let lists = List::Cons(l, Box::new(lists));
            Sprite { costumes, sounds, variables, lists, structs, enums, procs, funcs, events }
        },
        Item::Struct(s) => {
            let structs = List::Cons(s, Box::new(structs));
            Sprite { costumes, sounds, variables, lists, structs, enums, procs, funcs, events }
        },
        Item::Enum(e) => {
            let enums = List::Cons(e, Box::new(enums));
            Sprite { costumes, sounds, variables, lists, structs, enums, procs, funcs, events }
        },
        Item::Proc(p) => {
            let procs = List::Cons(p, Box::new(procs));
            Sprite { costumes, sounds, variables, lists, structs, enums, procs, funcs, events }
        },
        Item::Func(f) => {
            let funcs = List::Cons(f, Box::new(funcs));
            Sprite { costumes, sounds, variables, lists, structs, enums, procs, funcs, events }
        },
        Item::Event(e) => {
            let events = List::Cons(e, Box::new(events));
            Sprite { costumes, sounds, variables, lists, structs, enums, procs, funcs, events }
        },
    }
}

fn append(a: List<Span>, b: List<Span>) -> (r: List<Span>)
    ensures
        r == spec_append(a, b),
    decreases a,
{
    match a {
        List::Nil => b,
        List::Cons(x, rest) => List::Cons(x, Box::new(append(*rest, b))),
    }
}

fn parse_names(toks: &Vec<SpannedToken>, p: usize, close: Token) -> (r: Result<
    (List<Span>, usize),
    Diagnostic,
>)
    requires
        p <= toks.len(),
    ensures
        same(r, spec_names(toks@, p as int, close)),
        advances(r, p as int, toks.len() as int),
{
    if tok_is(toks, p, close) {
        Ok((List::Nil, p + 1))
    } else {
        parse_names1(toks, p, close)
    }
}

fn parse_names1(toks: &Vec<SpannedToken>, p: usize, close: Token) -> (r: Result<
    (List<Span>, usize),
    Diagnostic,
>)
    requires
        p <= toks.len(),
    ensures
        same(r, spec_names1(toks@, p as int, close)),
        advances(r, p as int, toks.len() as int),
    decreases toks.len() - p,
{
    if !tok_is(toks, p, Token::Name) {
        Err(error_at_exec(toks, p))
    } else if tok_is(toks, p + 1, close) {
        Ok((List::Cons(span_of(toks, p), Box::new(List::Nil)), p + 2))
    } else if tok_is(toks, p + 1, Token::Comma) {
        match parse_names1(toks, p + 2, close) {
            Err(d) => Err(d),
            Ok((rest, q)) => Ok((List::Cons(span_of(toks, p), Box::new(rest)), q)),
        }
    } else {
        Err(error_at_exec(toks, p + 1))
    }
}

fn parse_strings(toks: &Vec<SpannedToken>, p: usize) -> (r: Result<(List<Span>, usize), Diagnostic>)
    requires
        p <= toks.len(),
    ensures
        same(r, spec_strings(toks@, p as int)),
        advances(r, p as int, toks.len() as int),
    decreases toks.len() - p,
{
    if !tok_is(toks, p, Token::Str) {
        Err(error_at_exec(toks, p))
    } else if tok_is(toks, p + 1, Token::Semi) {
        Ok((List::Cons(span_of(toks, p), Box::new(List::Nil)), p + 2))
    } else if tok_is(toks, p + 1, Token::Comma) {
        match parse_strings(toks, p + 2) {
            Err(d) => Err(d),
            Ok((rest, q)) => Ok((List::Cons(span_of(toks, p), Box::new(rest)), q)),
        }
    } else {
        Err(error_at_exec(toks, p + 1))
    }
}

fn parse_function(src: &[u8], toks: &Vec<SpannedToken>, p: usize, warp: bool) -> (r: Result<
    (Item, usize),
    Diagnostic,
>)
    requires
        tokens_fit(src@, toks@),
        p <= toks.len(),
    ensures
        same(r, spec_function(token_texts(src@, toks@), toks@, p as int, warp)),
        advances(r, p as int, toks.len() as int),
        r matches Ok((it, _)) ==> item_fits(it, source_values(src@)),
{
    match name_at(toks, p) {
        Err(d) => Err(d),
        Ok((name, q1)) => match expect(toks, q1, Token::LParen) {
            Err(d) => Err(d),
            Ok(q2) => match parse_names(toks, q2, Token::RParen) {
                Err(d) => Err(d),
                Ok((args, q3)) => if tok_is(toks, q3, Token::Colon) {
                    match name_at(toks, q3 + 1) {
                        Err(d) => Err(d),
                        Ok((ty, q4)) => match parse_body(src, toks, q4) {
                            Err(d) => Err(d),
                            Ok((body, q5)) => Ok(
                                (Item::Func(Func { name, args, warp, ty, body }), q5),
                            ),
                        },
                    }
                } else {
                    match parse_body(src, toks, q3) {
                        Err(d) => Err(d),
                        Ok((body, q4)) => Ok((Item::Proc(Proc { name, args, warp, body }), q4)),
                    }
                },
            },
        },
    }
}

fn parse_event(src: &[u8], toks: &Vec<SpannedToken>, p: usize) -> (r: Result<
    (Item, usize),
    Diagnostic,
>)
    requires
        tokens_fit(src@, toks@),
        p < toks.len(),
    ensures
        same(r, spec_event(token_texts(src@, toks@), toks@, p as int)),
        advances(r, p as int, toks.len() as int),
        r matches Ok((it, _)) ==> item_fits(it, source_values(src@)),
{
    let t = toks[p].1;
    let with_string = t == Token::OnKey || t == Token::On || t == Token::OnBackdrop;
    match expect(toks, p + 1, Token::LParen) {
        Err(d) => Err(d),
        Ok(q1) => {
            let q2 = if with_string {
                expect(toks, q1, Token::Str)
            } else {
                Ok(q1)
            };
            match q2 {
                Err(d) => Err(d),
                Ok(q2) => match expect(toks, q2, Token::RParen) {
                    Err(d) => Err(d),
                    Ok(q3) => match parse_body(src, toks, q3) {
                        Err(d) => Err(d),
                        Ok((body, q4)) => {
                            let kind = match t {
                                Token::OnKey => EventKind::OnKey(span_of(toks, q1)),
                                Token::On => EventKind::OnBroadcast(span_of(toks, q1)),
                                Token::OnBackdrop => EventKind::OnBackdrop(span_of(toks, q1)),
                                Token::OnClick => EventKind::OnClick,
                                Token::OnClone => EventKind::OnClone,
                                _ => EventKind::OnFlag,
                            };
                            Ok((Item::Event(Event { kind, body }), q4))
                        },
                    },
                },
            }
        },
    }
}

fn parse_var(src: &[u8], toks: &Vec<SpannedToken>, p: usize) -> (r: Result<(Item, usize), Diagnostic>)
    requires
        tokens_fit(src@, toks@),
        p < toks.len(),
    ensures
        same(r, spec_var(token_texts(src@, toks@), toks@, p as int)),
        advances(r, p as int, toks.len() as int),
{
    match name_at(toks, p + 1) {
        Err(d) => Err(d),
        Ok((name, q1)) => match opt_type(toks, q1) {
            Err(d) => Err(d),
            Ok((ty, q2)) => if tok_is(toks, q2, Token::Assign) {
                match parse_expr_semi(src, toks, q2 + 1) {
                    Err(d) => Err(d),
                    Ok((value, q3)) => Ok(
                        (Item::Var(VarDecl { name, ty, default: Some(value) }), q3),
                    ),
                }
            } else if tok_is(toks, q2, Token::Semi) {
                Ok((Item::Var(VarDecl { name, ty, default: None }), q2 + 1))
            } else {
                Err(error_at_exec(toks, q2))
            },
        },
    }
}

fn parse_list_decl(toks: &Vec<SpannedToken>, p: usize) -> (r: Result<(Item, usize), Diagnostic>)
    requires
        p < toks.len(),
    ensures
        same(r, spec_list_decl(toks@, p as int)),
        advances(r, p as int, toks.len() as int),
{
    match name_at(toks, p + 1) {
        Err(d) => Err(d),
        Ok((name, q1)) => match opt_type(toks, q1) {
            Err(d) => Err(d),
            Ok((ty, q2)) => match expect(toks, q2, Token::Semi) {
                Err(d) => Err(d),
                Ok(q3) => Ok((Item::List(ListDecl { name, ty }), q3)),
            },
        },
    }
}

fn parse_struct_enum(toks: &Vec<SpannedToken>, p: usize) -> (r: Result<(Item, usize), Diagnostic>)
    requires
        p < toks.len(),
    ensures
        same(r, spec_struct_enum(toks@, p as int)),
        advances(r, p as int, toks.len() as int),
{
    match name_at(toks, p + 1) {
        Err(d) => Err(d),
        Ok((name, q1)) => match expect(toks, q1, Token::LBrace) {
            Err(d) => Err(d),
            Ok(q2) => match parse_names(toks, q2, Token::RBrace) {
                Err(d) => Err(d),
                Ok((names, q3)) => if toks[p].1 == Token::Struct {
                    Ok((Item::Struct(StructDecl { name, fields: names }), q3))
                } else {
                    Ok((Item::Enum(EnumDecl { name, variants: names }), q3))
                },
            },
        },
    }
}

fn parse_item(src: &[u8], toks: &Vec<SpannedToken>, p: usize) -> (r: Result<(Item, usize), Diagnostic>)
    requires
        tokens_fit(src@, toks@),
        p <= toks.len(),
    ensures
        same(r, spec_item(token_texts(src@, toks@), toks@, p as int)),
        advances(r, p as int, toks.len() as int),
        r matches Ok((it, _)) ==> item_fits(it, source_values(src@)),
{
    if p >= toks.len() {
        return Err(error_at_exec(toks, p));
    }
    match toks[p].1 {
        Token::Costumes => match parse_strings(toks, p + 1) {
            Err(d) => Err(d),
            Ok((l, q)) => Ok((Item::Costumes(l), q)),
        },
        Token::Sounds => match parse_strings(toks, p + 1) {
            Err(d) => Err(d),
            Ok((l, q)) => Ok((Item::Sounds(l), q)),
        },
        Token::Var => parse_var(src, toks, p),
        Token::List => parse_list_decl(toks, p),
        Token::Struct => parse_struct_enum(toks, p),
        Token::Enum => parse_struct_enum(toks, p),
        Token::Function => parse_function(src, toks, p + 1, true),
        Token::Nowarp => match expect(toks, p + 1, Token::Function) {
            Err(d) => Err(d),
            Ok(q) => parse_function(src, toks, q, false),
        },
        Token::OnFlag => parse_event(src, toks, p),
        Token::OnClick => parse_event(src, toks, p),
        Token::OnClone => parse_event(src, toks, p),
        Token::OnKey => parse_event(src, toks, p),
        Token::On => parse_event(src, toks, p),
        Token::OnBackdrop => parse_event(src, toks, p),
        _ => Err(error_at_exec(toks, p)),
    }
}

fn parse_items(src: &[u8], toks: &Vec<SpannedToken>, p: usize) -> (r: (Sprite, Option<Diagnostic>))
    requires
        tokens_fit(src@, toks@),
        p <= toks.len(),
    ensures
        r == spec_items(token_texts(src@, toks@), toks@, p as int),
        literals_fit_sprite(r.0, source_values(src@)),
    decreases toks.len() - p,
{
    if p >= toks.len() {
        return (Sprite::empty(), None);
    }
    match parse_item(src, toks, p) {
        Err(d) => (Sprite::empty(), Some(d)),
        Ok((item, q)) => {
            let (sp, d) = parse_items(src, toks, q);
            (add_item_exec(item, sp, Ghost(source_values(src@))), d)
        },
    }
}

/// Reads the declarations of a sprite from its tokens.  Reading stops at
/// the first declaration that does not follow the grammar: the sprite then
/// holds the declarations before it, and the diagnostic says where.
pub(crate) fn parse_tokens(src: &[u8], toks: &Vec<SpannedToken>) -> (r: (Sprite, Option<Diagnostic>))
    requires
        tokens_fit(src@, toks@),
    ensures
        r == spec_sprite(token_texts(src@, toks@), toks@),
        literals_fit_sprite(r.0, source_values(src@)),
{
    parse_items(src, toks, 0)
}

/// A declaration cannot start with a plain name (such as a word that is no
/// keyword, like `proc`): reading stops there, with a diagnostic at that
/// name and no declaration of its own.
pub proof fn lemma_name_starts_no_declaration(texts: Seq<Seq<u8>>, toks: Seq<SpannedToken>, p: int)
    requires
        0 <= p < toks.len(),
        toks[p].1 == Token::Name,
    ensures
        spec_item(texts, toks, p) == Err::<(Item, int), Diagnostic>(error_at(toks, p)),
        spec_items(texts, toks, p) == (Sprite::spec_empty(), Some(error_at(toks, p))),
{
}

/// A parenthesised expression is closed right after it: an operand followed
/// by anything but `)`, such as another operand or a name (`and`, `or` and
/// `not` are names), is an error at that token.
pub proof fn lemma_parenthesis_needs_close(texts: Seq<Seq<u8>>, toks: Seq<SpannedToken>, p: int, q: int)
    requires
        0 <= p < toks.len(),
        toks[p].1 == Token::LParen,
        spec_level(texts, toks, 6, p + 1) matches Ok((_, q1)) && q1 == q,
        tok_at(toks, q) != Some(Token::RParen),
    ensures
        spec_primary(texts, toks, p) == Err::<(Expr, int), Diagnostic>(error_at(toks, q)),
{
}

/// An expression statement ends right after its expression: anything but
/// `;` there is an error at that token.
pub proof fn lemma_expression_needs_semicolon(texts: Seq<Seq<u8>>, toks: Seq<SpannedToken>, p: int, q: int)
    requires
        spec_expr(texts, toks, p) matches Ok((_, q1)) && q1 == q,
        tok_at(toks, q) != Some(Token::Semi),
    ensures
        spec_expr_semi(texts, toks, p) == Err::<(Expr, int), Diagnostic>(error_at(toks, q)),
{
}

/// The declarations read one after another from `p`, each of at least one
/// token, end exactly at the last token.
pub open spec fn declarations_cover(texts: Seq<Seq<u8>>, toks: Seq<SpannedToken>, p: int) -> bool
    decreases toks.len() - p,
{
    if p >= toks.len() {
        true
    } else {
        match spec_item(texts, toks, p) {
            Err(_) => false,
            Ok((_, q)) => if p < q && q <= toks.len() {
                declarations_cover(texts, toks, q)
            } else {
                false
            },
        }
    }
}

/// A parse without diagnostic is one whose declarations read every token.
pub proof fn lemma_parse_reads_every_token(texts: Seq<Seq<u8>>, toks: Seq<SpannedToken>, p: int)
    requires
        0 <= p,
    ensures
        spec_items(texts, toks, p).1 is None <==> declarations_cover(texts, toks, p),
    decreases toks.len() - p,
{
    if p < toks.len() {
        if let Ok((_, q)) = spec_item(texts, toks, p) {
            if p < q && q <= toks.len() {
                lemma_parse_reads_every_token(texts, toks, q);
            }
        }
    }
}

/// A token stands, at a precedence level, for the binary operator whose
/// symbol is the token's spelling, and that operator has that level.
pub proof fn lemma_level_op_spelled(k: u8, t: Token)
    ensures
        level_op(k, t) matches Some(op) ==> spelling(t) == Some(binop_symbol(op)) && binop_level(op)
            == k,
{
}

/// The token spelled like a binary operator's symbol stands for that
/// operator at its level: `-` for subtraction, `<=` for at most, and so on.
pub proof fn lemma_symbol_gives_op(op: BinOp, t: Token)
    requires
        spelling(t) == Some(binop_symbol(op)),
    ensures
        level_op(binop_level(op), t) == Some(op),
{
    let w = binop_symbol(op);
    let v = spelling(t).unwrap();
    assert(v.len() == w.len());
    assert(v[0] == w[0]);
    if w.len() > 1 {
        assert(v[1] == w[1]);
    }
    if w.len() > 2 {
        assert(v[2] == w[2]);
    }
}

/// A compound assignment `op=` is spelled as the symbol of its operator
/// followed by `=`.
pub proof fn lemma_assign_op_spelled(t: Token)
    ensures
        assign_op(t) matches Some(op) ==> spelling(t) == Some(binop_symbol(op).push('=' as u8)),
{
}

/// A prefix operator is spelled as its symbol.
pub proof fn lemma_unary_op_spelled(t: Token)
    ensures
        unary_op(t) matches Some(op) ==> spelling(t) == Some(unop_symbol(op)),
{
}

/// A call statement names the block of the standard library spelled like
/// its name.
pub proof fn lemma_block_name_spelled(w: Seq<u8>)
    ensures
        spec_block_name(w) matches Some(b) ==> w == block_spelling(b),
{
}

/// A call expression names the reporter of the standard library spelled
/// like its name.
pub proof fn lemma_repr_spelled(w: Seq<u8>)
    ensures
        spec_repr(w) matches Some(r) ==> w == repr_spelling(r),
{
}

/// The keyword that starts a statement decides what it is: `if` a branch,
/// `while` a loop until the negated condition, `repeat` a counted loop,
/// `forever` an endless loop, `return` a return, `let` a local variable,
/// `show` and `hide` themselves, `delete` a deletion from a list and
/// `insert` an insertion into one.
pub proof fn lemma_statement_keyword(texts: Seq<Seq<u8>>, toks: Seq<SpannedToken>, p: int)
    requires
        0 <= p < toks.len(),
        spec_stmt(texts, toks, p) is Ok,
    ensures
        ({
            let st = spec_stmt(texts, toks, p)->Ok_0.0;
            &&& toks[p].1 == Token::If ==> st is Branch
            &&& toks[p].1 == Token::While ==> (st matches Stmt::Until { cond, .. } && cond matches Expr::UnOp {
                op: UnOp::Not,
                ..
            })
            &&& toks[p].1 == Token::Repeat ==> st is Repeat
            &&& toks[p].1 == Token::Forever ==> st is Forever
            &&& toks[p].1 == Token::Return ==> st is Return
            &&& toks[p].1 == Token::Let ==> (st matches Stmt::SetVar { is_local, .. } && is_local)
            &&& toks[p].1 == Token::Show ==> st is Show
            &&& toks[p].1 == Token::Hide ==> st is Hide
            &&& toks[p].1 == Token::Delete ==> (st is DeleteList || st is DeleteListIndex)
            &&& toks[p].1 == Token::Insert ==> st is InsertAtList
        }),
{
}

/// Distinct binary operators have distinct symbols.
proof fn lemma_binop_symbol_distinct(a: BinOp, b: BinOp)
    requires
        binop_symbol(a) == binop_symbol(b),
    ensures
        a == b,
{
    let (x, y) = (binop_symbol(a), binop_symbol(b));
    assert(x.len() == y.len() && x[0] == y[0]);
    if x.len() > 1 {
        assert(x[1] == y[1]);
    }
    if x.len() > 2 {
        assert(x[2] == y[2]);
    }
}

/// A token spelled like the symbol of `op` is an operator at the level of
/// `op` only.
proof fn lemma_op_token_level(op: BinOp, t: Token, j: u8)
    requires
        spelling(t) == Some(binop_symbol(op)),
    ensures
        level_op(j, t) is Some ==> j == binop_level(op),
{
    lemma_level_op_spelled(j, t);
    if let Some(o) = level_op(j, t) {
        lemma_binop_symbol_distinct(o, op);
    }
}

/// A token that no level reads as an operator ends an expression.
pub open spec fn ends_operand(t: Token) -> bool {
    t != Token::Dot && forall|j: u8| 1 <= j <= 6 ==> #[trigger] level_op(j, t) is None
}

/// What has been read at level `k0` is read at every level up to `k`, when
/// the token after it is an operator at none of the levels between.
proof fn lemma_level_stops(
    texts: Seq<Seq<u8>>,
    toks: Seq<SpannedToken>,
    k0: u8,
    k: u8,
    p: int,
    e: Expr,
    q: int,
)
    requires
        k0 <= k <= 6,
        spec_level(texts, toks, k0, p) == Ok::<(Expr, int), Diagnostic>((e, q)),
        p < q < toks.len(),
        forall|j: u8| k0 < j <= k ==> #[trigger] level_op(j, toks[q].1) is None,
    ensures
        spec_level(texts, toks, k, p) == Ok::<(Expr, int), Diagnostic>((e, q)),
    decreases k - k0,
{
    if k > k0 {
        let km = (k - 1) as u8;
        lemma_level_stops(texts, toks, k0, km, p, e, q);
        assert(level_op(k, toks[q].1) is None);
        assert(spec_level(texts, toks, km, p) == Ok::<(Expr, int), Diagnostic>((e, q)));
        assert(spec_level_rest(texts, toks, k, p, e, q) == Ok::<(Expr, int), Diagnostic>((e, q)));
    }
}

/// `e` is the number literal of token `p`.
pub open spec fn literal_at(e: Expr, toks: Seq<SpannedToken>, p: int) -> bool {
    e matches Expr::Value { value: Value::Number(Number::Literal { span, .. }), .. } && span
        == tok_span(toks, p)
}

/// The operator and the operands of a binary operation.
pub open spec fn binop_parts(e: Expr) -> Option<(BinOp, Expr, Expr)> {
    match e {
        Expr::BinOp { op, lhs, rhs, .. } => Some((op, *lhs, *rhs)),
        _ => None,
    }
}

/// The literal of the number token `p`, as the grammar reads it.
spec fn number_expr(texts: Seq<Seq<u8>>, toks: Seq<SpannedToken>, p: int) -> Expr {
    let sp = tok_span(toks, p);
    Expr::Value {
        value: Value::Number(
            Number::Literal {
                span: sp,
                num: literal_num(tok_text(texts, toks, p)),
                den: literal_den(tok_text(texts, toks, p)),
            },
        ),
        span: sp,
    }
}

/// A number literal followed by a token that is no operator up to level
/// `k` is read alone at every level up to `k`.
proof fn lemma_number_operand(texts: Seq<Seq<u8>>, toks: Seq<SpannedToken>, p: int, k: u8)
    requires
        0 <= p,
        p + 1 < toks.len(),
        toks[p].1 == Token::Number,
        k <= 6,
        forall|j: u8| 1 <= j <= k ==> #[trigger] level_op(j, toks[p + 1].1) is None,
        toks[p + 1].1 != Token::Dot,
    ensures
        spec_level(texts, toks, k, p) == Ok::<(Expr, int), Diagnostic>(
            (number_expr(texts, toks, p), p + 1),
        ),
{
    assert(unary_op(Token::Number) is None);
    let e = number_expr(texts, toks, p);
    assert(spec_primary(texts, toks, p) == Ok::<(Expr, int), Diagnostic>((e, p + 1)));
    assert(spec_postfix(texts, toks, p, e, p + 1) == Ok::<(Expr, int), Diagnostic>((e, p + 1)));
    assert(spec_unary(texts, toks, p) == Ok::<(Expr, int), Diagnostic>((e, p + 1)));
    assert(spec_level(texts, toks, 0, p) == spec_unary(texts, toks, p));
    lemma_level_stops(texts, toks, 0, k, p, e, p + 1);
}

/// Reading an operator at level `k` from `q`: its right operand is what
/// level `k - 1` reads after it.
proof fn lemma_rest_step(
    texts: Seq<Seq<u8>>,
    toks: Seq<SpannedToken>,
    k: u8,
    start: int,
    lhs: Expr,
    q: int,
    op: BinOp,
    rhs: Expr,
    q2: int,
)
    requires
        1 <= k <= 6,
        0 <= q < q2 <= toks.len(),
        level_op(k, toks[q].1) == Some(op),
        spec_level(texts, toks, (k - 1) as u8, q + 1) == Ok::<(Expr, int), Diagnostic>((rhs, q2)),
    ensures
        spec_level_rest(texts, toks, k, start, lhs, q) == spec_level_rest(
            texts,
            toks,
            k,
            start,
            Expr::BinOp {
                op,
                lhs: Box::new(lhs),
                rhs: Box::new(rhs),
                span: span_from(toks, start, q2),
            },
            q2,
        ),
{
}

/// Where the token at `q` is an operator at no level up to `k`, reading at
/// level `k` ends there.
proof fn lemma_rest_stops(
    texts: Seq<Seq<u8>>,
    toks: Seq<SpannedToken>,
    k: u8,
    start: int,
    e: Expr,
    q: int,
)
    requires
        k <= 6,
        0 <= q < toks.len(),
        k == 0 || level_op(k, toks[q].1) is None,
    ensures
        spec_level_rest(texts, toks, k, start, e, q) == Ok::<(Expr, int), Diagnostic>((e, q)),
{
}

/// `N op N` read at a level `k` at least that of `op`, when the token after
/// it is no operator up to level `k`.
proof fn lemma_binary_at(texts: Seq<Seq<u8>>, toks: Seq<SpannedToken>, p: int, op: BinOp, k: u8)
    requires
        0 <= p,
        p + 3 < toks.len(),
        toks[p].1 == Token::Number,
        spelling(toks[p + 1].1) == Some(binop_symbol(op)),
        toks[p + 2].1 == Token::Number,
        binop_level(op) <= k <= 6,
        toks[p + 3].1 != Token::Dot,
        forall|j: u8| 1 <= j <= k ==> #[trigger] level_op(j, toks[p + 3].1) is None,
    ensures
        spec_level(texts, toks, k, p) == Ok::<(Expr, int), Diagnostic>(
            (
                Expr::BinOp {
                    op,
                    lhs: Box::new(number_expr(texts, toks, p)),
                    rhs: Box::new(number_expr(texts, toks, p + 2)),
                    span: span_from(toks, p, p + 3),
                },
                p + 3,
            ),
        ),
{
    let t = toks[p + 1].1;
    let lv = binop_level(op);
    let lm = (lv - 1) as u8;
    lemma_symbol_gives_op(op, t);
    assert forall|j: u8| 1 <= j <= lm implies #[trigger] level_op(j, t) is None by {
        lemma_op_token_level(op, t, j);
    }
    lemma_number_operand(texts, toks, p, lm);
    lemma_number_operand(texts, toks, p + 2, lm);
    let n1 = number_expr(texts, toks, p);
    let n2 = number_expr(texts, toks, p + 2);
    let b = Expr::BinOp {
        op,
        lhs: Box::new(n1),
        rhs: Box::new(n2),
        span: span_from(toks, p, p + 3),
    };
    lemma_rest_step(texts, toks, lv, p, n1, p + 1, op, n2, p + 3);
    lemma_rest_stops(texts, toks, lv, p, b, p + 3);
    assert(spec_level(texts, toks, lv, p) == Ok::<(Expr, int), Diagnostic>((b, p + 3)));
    lemma_level_stops(texts, toks, lv, k, p, b, p + 3);
}

/// Two numbers joined by an operator read as that operator, applied to the
/// first number on the left and the second on the right: `10 - 3` is the
/// subtraction of 3 from 10, `a <= b` is at most, whatever the operator.
pub proof fn lemma_binary_operation(
    texts: Seq<Seq<u8>>,
    toks: Seq<SpannedToken>,
    p: int,
    op: BinOp,
)
    requires
        0 <= p,
        p + 3 < toks.len(),
        toks[p].1 == Token::Number,
        spelling(toks[p + 1].1) == Some(binop_symbol(op)),
        toks[p + 2].1 == Token::Number,
        ends_operand(toks[p + 3].1),
    ensures
        spec_expr(texts, toks, p) matches Ok((e, q)) && q == p + 3 && (binop_parts(e) matches Some(
            (o, l, r),
        ) && o == op && literal_at(l, toks, p) && literal_at(r, toks, p + 2)),
{
    let t3 = toks[p + 3].1;
    assert forall|j: u8| 1 <= j <= 6 implies #[trigger] level_op(j, t3) is None by {
        assert(ends_operand(t3));
    }
    lemma_binary_at(texts, toks, p, op, 6);
}

/// Three numbers joined by two operators group by precedence, the tighter
/// operator first, and from the left between operators of one level:
/// `1 + 2 * 3` is `1 + (2 * 3)`, while `1 * 2 + 3` and `1 - 2 - 3` group
/// their first two numbers.
pub proof fn lemma_operator_grouping(
    texts: Seq<Seq<u8>>,
    toks: Seq<SpannedToken>,
    p: int,
    op1: BinOp,
    op2: BinOp,
)
    requires
        0 <= p,
        p + 5 < toks.len(),
        toks[p].1 == Token::Number,
        spelling(toks[p + 1].1) == Some(binop_symbol(op1)),
        toks[p + 2].1 == Token::Number,
        spelling(toks[p + 3].1) == Some(binop_symbol(op2)),
        toks[p + 4].1 == Token::Number,
        ends_operand(toks[p + 5].1),
    ensures
        spec_expr(texts, toks, p) matches Ok((e, q)) && q == p + 5 && (if binop_level(op1)
            <= binop_level(op2) {
            binop_parts(e) matches Some((o, l, r)) && o == op2 && literal_at(r, toks, p + 4) && (
            binop_parts(l) matches Some((o1, ll, lr)) && o1 == op1 && literal_at(ll, toks, p)
                && literal_at(lr, toks, p + 2))
        } else {
            binop_parts(e) matches Some((o, l, r)) && o == op1 && literal_at(l, toks, p) && (
            binop_parts(r) matches Some((o2, rl, rr)) && o2 == op2 && literal_at(rl, toks, p + 2)
                && literal_at(rr, toks, p + 4))
        }),
{
    let (t1, t3, t5) = (toks[p + 1].1, toks[p + 3].1, toks[p + 5].1);
    let (l1, l2) = (binop_level(op1), binop_level(op2));
    lemma_symbol_gives_op(op1, t1);
    lemma_symbol_gives_op(op2, t3);
    assert forall|j: u8| 1 <= j <= 6 implies #[trigger] level_op(j, t5) is None by {
        assert(ends_operand(t5));
    }
    assert forall|j: u8| 1 <= j <= 6 && j != l1 implies #[trigger] level_op(j, t1) is None by {
        lemma_op_token_level(op1, t1, j);
    }
    assert forall|j: u8| 1 <= j <= 6 && j != l2 implies #[trigger] level_op(j, t3) is None by {
        lemma_op_token_level(op2, t3, j);
    }
    let n1 = number_expr(texts, toks, p);
    let n2 = number_expr(texts, toks, p + 2);
    let n3 = number_expr(texts, toks, p + 4);
    lemma_number_operand(texts, toks, p + 4, 5);
    if l1 < l2 {
        let b1 = Expr::BinOp {
            op: op1,
            lhs: Box::new(n1),
            rhs: Box::new(n2),
            span: span_from(toks, p, p + 3),
        };
        lemma_binary_at(texts, toks, p, op1, (l2 - 1) as u8);
        lemma_number_operand(texts, toks, p + 4, (l2 - 1) as u8);
        let b = Expr::BinOp {
            op: op2,
            lhs: Box::new(b1),
            rhs: Box::new(n3),
            span: span_from(toks, p, p + 5),
        };
        lemma_rest_step(texts, toks, l2, p, b1, p + 3, op2, n3, p + 5);
        lemma_rest_stops(texts, toks, l2, p, b, p + 5);
        assert(spec_level(texts, toks, l2, p) == Ok::<(Expr, int), Diagnostic>((b, p + 5)));
        lemma_level_stops(texts, toks, l2, 6, p, b, p + 5);
    } else if l1 == l2 {
        let lm = (l1 - 1) as u8;
        lemma_number_operand(texts, toks, p, lm);
        lemma_number_operand(texts, toks, p + 2, lm);
        lemma_number_operand(texts, toks, p + 4, lm);
        let b1 = Expr::BinOp {
            op: op1,
            lhs: Box::new(n1),
            rhs: Box::new(n2),
            span: span_from(toks, p, p + 3),
        };
        let b = Expr::BinOp {
            op: op2,
            lhs: Box::new(b1),
            rhs: Box::new(n3),
            span: span_from(toks, p, p + 5),
        };
        lemma_rest_step(texts, toks, l1, p, n1, p + 1, op1, n2, p + 3);
        lemma_rest_step(texts, toks, l1, p, b1, p + 3, op2, n3, p + 5);
        lemma_rest_stops(texts, toks, l1, p, b, p + 5);
        assert(spec_level(texts, toks, l1, p) == Ok::<(Expr, int), Diagnostic>((b, p + 5)));
        lemma_level_stops(texts, toks, l1, 6, p, b, p + 5);
    } else {
        let lm = (l1 - 1) as u8;
        lemma_number_operand(texts, toks, p, lm);
        lemma_binary_at(texts, toks, p + 2, op2, lm);
        let b2 = Expr::BinOp {
            op: op2,
            lhs: Box::new(n2),
            rhs: Box::new(n3),
            span: span_from(toks, p + 2, p + 5),
        };
        let b = Expr::BinOp {
            op: op1,
            lhs: Box::new(n1),
            rhs: Box::new(b2),
            span: span_from(toks, p, p + 5),
        };
        lemma_rest_step(texts, toks, l1, p, n1, p + 1, op1, b2, p + 5);
        lemma_rest_stops(texts, toks, l1, p, b, p + 5);
        assert(spec_level(texts, toks, l1, p) == Ok::<(Expr, int), Diagnostic>((b, p + 5)));
        lemma_level_stops(texts, toks, l1, 6, p, b, p + 5);
    }
}

/// The token after a name decides what a statement that starts with the
/// name does to it: `=` sets it, `+=` changes it by the value, `-=` by the
/// negated value, `op=` sets it to the operation of `op` on itself and the
/// value, `++` and `--` change it by 1 and by -1.
pub proof fn lemma_assignment_kind(texts: Seq<Seq<u8>>, toks: Seq<SpannedToken>, p: int)
    requires
        0 <= p,
        p + 1 < toks.len(),
        toks[p].1 == Token::Name,
        spec_stmt(texts, toks, p) is Ok,
    ensures
        ({
            let st = spec_stmt(texts, toks, p)->Ok_0.0;
            let t = toks[p + 1].1;
            let name = tok_span(toks, p);
            &&& t == Token::Assign ==> (st matches Stmt::SetVar { name: n, is_local, .. } && n
                == name && !is_local)
            &&& t == Token::PlusAssign ==> (st matches Stmt::ChangeVar { name: n, .. } && n == name)
            &&& t == Token::MinusAssign ==> (st matches Stmt::ChangeVar {
                name: n,
                value: Expr::UnOp { op: UnOp::Minus, .. },
            } && n == name)
            &&& assign_op(t) is Some ==> (st matches Stmt::SetVar {
                name: n,
                value: Expr::BinOp { op, lhs, .. },
                is_local,
                ..
            } && n == name && !is_local && Some(op) == assign_op(t) && *lhs == Expr::Name(name))
            &&& t == Token::PlusPlus ==> (st matches Stmt::ChangeVar {
                name: n,
                value: Expr::Value { value: Value::Number(Number::Int(one)), .. },
            } && n == name && one == 1)
            &&& t == Token::MinusMinus ==> (st matches Stmt::ChangeVar {
                name: n,
                value: Expr::UnOp { op: UnOp::Minus, opr, .. },
            } && n == name && (*opr matches Expr::Value {
                value: Value::Number(Number::Int(one)),
                ..
            } && one == 1))
        }),
{
}

} // verus!
