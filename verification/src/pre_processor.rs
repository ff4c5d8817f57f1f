//! The preprocessor: object-like macros.
//!
//! `%define NAME tokens..` defines `NAME` as the tokens that follow it up to
//! the end of its line, and `%undef NAME` removes the definition.  Every
//! later name token spelled like a defined macro is replaced by the tokens of
//! its newest definition, which are not expanded again.  The directives
//! themselves leave no token behind.
use vstd::prelude::*;

use crate::ast::Span;
use crate::diagnostic::{Diagnostic, DiagnosticKind};
use crate::token::{SpannedToken, Token};

verus! {

/// A macro definition: the span of its name, and the range of input
/// tokens that form its body.
pub type MacroDef = (Span, usize, usize);

/// No line feed lies in `src[a..b]`.
pub open spec fn no_newline(src: Seq<u8>, a: int, b: int) -> bool {
    forall|j: int| a <= j < b ==> #[trigger] src[j] != '\n' as u8
}

/// The position of the first token after `k - 1` that is separated from
/// the token before it by a line break, or the end.
pub open spec fn line_end_token(src: Seq<u8>, toks: Seq<SpannedToken>, k: int) -> int
    decreases toks.len() - k,
{
    if 0 < k < toks.len() && no_newline(src, toks[k - 1].2 as int, toks[k].0 as int) {
        line_end_token(src, toks, k + 1)
    } else {
        k
    }
}

pub open spec fn same_text(src: Seq<u8>, a: Span, b: Span) -> bool {
    src.subrange(a.start as int, a.end as int) == src.subrange(b.start as int, b.end as int)
}

/// The newest definition among the first `k` whose name is spelled like
/// `name`.
pub open spec fn lookup_upto(src: Seq<u8>, table: Seq<MacroDef>, name: Span, k: int) -> Option<
    MacroDef,
>
    decreases k,
{
    if k <= 0 || k > table.len() {
        None
    } else if same_text(src, table[k - 1].0, name) {
        Some(table[k - 1])
    } else {
        lookup_upto(src, table, name, k - 1)
    }
}

pub open spec fn lookup(src: Seq<u8>, table: Seq<MacroDef>, name: Span) -> Option<MacroDef> {
    lookup_upto(src, table, name, table.len() as int)
}

/// The first `k` definitions, without those spelled like `name`.
pub open spec fn without_upto(src: Seq<u8>, table: Seq<MacroDef>, name: Span, k: int) -> Seq<
    MacroDef,
>
    decreases k,
{
    if k <= 0 || k > table.len() {
        Seq::empty()
    } else {
        let w = without_upto(src, table, name, k - 1);
        if same_text(src, table[k - 1].0, name) {
            w
        } else {
            w.push(table[k - 1])
        }
    }
}

pub open spec fn without(src: Seq<u8>, table: Seq<MacroDef>, name: Span) -> Seq<MacroDef> {
    without_upto(src, table, name, table.len() as int)
}

pub open spec fn tok_span_at(toks: Seq<SpannedToken>, k: int) -> Span {
    Span { start: toks[k].0, end: toks[k].2 }
}

/// The name of the directive at `i` stands right after it, on its line.
pub open spec fn directive_has_name(src: Seq<u8>, toks: Seq<SpannedToken>, i: int) -> bool {
    i + 1 < toks.len() && toks[i + 1].1 == Token::Name && no_newline(
        src,
        toks[i].2 as int,
        toks[i + 1].0 as int,
    )
}

/// The tokens from `i` on after preprocessing with the definitions
/// `table`, and the diagnostic of the first directive that could not be
/// applied; from that directive on, the tokens are left as they are.
pub open spec fn preprocess_from(
    src: Seq<u8>,
    toks: Seq<SpannedToken>,
    i: int,
    table: Seq<MacroDef>,
) -> (Seq<SpannedToken>, Option<Diagnostic>)
    decreases toks.len() - i,
{
    if i < 0 || i >= toks.len() {
        (Seq::empty(), None)
    } else if toks[i].1 == Token::Define || toks[i].1 == Token::Undef {
        if !directive_has_name(src, toks, i) {
            (
                toks.subrange(i, toks.len() as int),
                Some(
                    Diagnostic {
                        kind: DiagnosticKind::MacroNameExpected,
                        span: tok_span_at(toks, i),
                    },
                ),
            )
        } else if toks[i].1 == Token::Define {
            let e = line_end_token(src, toks, i + 2);
            if e < i + 2 || e > toks.len() {
                (Seq::empty(), None)
            } else {
                preprocess_from(
                    src,
                    toks,
                    e,
                    table.push((tok_span_at(toks, i + 1), (i + 2) as usize, e as usize)),
                )
            }
        } else if lookup(src, table, tok_span_at(toks, i + 1)) is Some {
            preprocess_from(src, toks, i + 2, without(src, table, tok_span_at(toks, i + 1)))
        } else {
            (
                toks.subrange(i, toks.len() as int),
                Some(
                    Diagnostic {
                        kind: DiagnosticKind::UndefinedMacro,
                        span: tok_span_at(toks, i + 1),
                    },
                ),
            )
        }
    } else {
        let (rest, d) = preprocess_from(src, toks, i + 1, table);
        match (toks[i].1, lookup(src, table, tok_span_at(toks, i))) {
            (Token::Name, Some((_, a, b))) => (toks.subrange(a as int, b as int) + rest, d),
            _ => (seq![toks[i]] + rest, d),
        }
    }
}

/// The tokens after preprocessing, and the diagnostic of the first
/// directive that could not be applied.
pub open spec fn spec_preprocess(src: Seq<u8>, toks: Seq<SpannedToken>) -> (
    Seq<SpannedToken>,
    Option<Diagnostic>,
) {
    preprocess_from(src, toks, 0, Seq::empty())
}

pub open spec fn tokens_in(src: Seq<u8>, toks: Seq<SpannedToken>) -> bool {
    forall|k: int| 0 <= k < toks.len() ==> #[trigger] toks[k].0 <= toks[k].2 <= src.len()
}

/// Every definition names a token inside the source.
pub open spec fn names_fit(src: Seq<u8>, table: Seq<MacroDef>) -> bool {
    forall|k: int|
        0 <= k < table.len() ==> (#[trigger] table[k]).0.start <= table[k].0.end <= src.len()
}

/// Every definition names a token inside the source and a range of tokens.
pub open spec fn table_fits(src: Seq<u8>, table: Seq<MacroDef>, len: int) -> bool {
    &&& names_fit(src, table)
    &&& forall|k: int| 0 <= k < table.len() ==> (#[trigger] table[k]).1 <= table[k].2 <= len
}

proof fn lemma_line_end_token(src: Seq<u8>, toks: Seq<SpannedToken>, k: int)
    requires
        0 < k <= toks.len(),
    ensures
        k <= line_end_token(src, toks, k) <= toks.len(),
    decreases toks.len() - k,
{
    if k < toks.len() && no_newline(src, toks[k - 1].2 as int, toks[k].0 as int) {
        lemma_line_end_token(src, toks, k + 1);
    }
}

proof fn lemma_lookup_fits(src: Seq<u8>, table: Seq<MacroDef>, name: Span, k: int, len: int)
    requires
        table_fits(src, table, len),
        k <= table.len(),
    ensures
        lookup_upto(src, table, name, k) matches Some(d) ==> d.1 <= d.2 <= len,
    decreases k,
{
    if k > 0 && !same_text(src, table[k - 1].0, name) {
        lemma_lookup_fits(src, table, name, k - 1, len);
    }
}

proof fn lemma_without_fits(src: Seq<u8>, table: Seq<MacroDef>, name: Span, k: int, len: int)
    requires
        table_fits(src, table, len),
        0 <= k <= table.len(),
    ensures
        table_fits(src, without_upto(src, table, name, k), len),
    decreases k,
{
    if k > 0 {
        lemma_without_fits(src, table, name, k - 1, len);
        let w = without_upto(src, table, name, k - 1);
        if !same_text(src, table[k - 1].0, name) {
            let w2 = w.push(table[k - 1]);
            assert forall|j: int| 0 <= j < w2.len() implies (#[trigger] w2[j]).0.start
                <= w2[j].0.end <= src.len() && w2[j].1 <= w2[j].2 <= len by {
                if j < w.len() {
                    assert(w2[j] == w[j]);
                }
            }
        }
    }
}

fn no_newline_exec(src: &[u8], a: usize, b: usize) -> (r: bool)
    requires
        b <= src.len(),
    ensures
        r == no_newline(src@, a as int, b as int),
{
    let mut j = a;
    while j < b
        invariant
            a <= j,
            b <= src.len(),
            forall|m: int| a <= m < j ==> #[trigger] src@[m] != '\n' as u8,
        decreases b - j,
    {
        if src[j] == '\n' as u8 {
            return false;
        }
        j += 1;
    }
    true
}

fn line_end_token_exec(src: &[u8], toks: &Vec<SpannedToken>, k: usize) -> (e: usize)
    requires
        0 < k <= toks.len(),
        tokens_in(src@, toks@),
    ensures
        e == line_end_token(src@, toks@, k as int),
{
    let mut j = k;
    while j < toks.len() && no_newline_exec(src, toks[j - 1].2, toks[j].0)
        invariant
            0 < k <= j <= toks.len(),
            tokens_in(src@, toks@),
            line_end_token(src@, toks@, j as int) == line_end_token(src@, toks@, k as int),
        decreases toks.len() - j,
    {
        proof {
            assert(toks@[j - 1].0 <= toks@[j - 1].2 <= src@.len());
            assert(toks@[j as int].0 <= toks@[j as int].2 <= src@.len());
        }
        j += 1;
    }
    j
}

fn same_text_exec(src: &[u8], a: Span, b: Span) -> (r: bool)
    requires
        a.start <= a.end <= src.len(),
        b.start <= b.end <= src.len(),
    ensures
        r == same_text(src@, a, b),
{
    if a.end - a.start != b.end - b.start {
        assert(src@.subrange(a.start as int, a.end as int).len() != src@.subrange(
            b.start as int,
            b.end as int,
        ).len());
        return false;
    }
    let n = a.end - a.start;
    let ghost ta = src@.subrange(a.start as int, a.end as int);
    let ghost tb = src@.subrange(b.start as int, b.end as int);
    let mut k: usize = 0;
    while k < n
        invariant
            n == a.end - a.start == b.end - b.start,
            a.start <= a.end <= src.len(),
            b.start <= b.end <= src.len(),
            ta == src@.subrange(a.start as int, a.end as int),
            tb == src@.subrange(b.start as int, b.end as int),
            k <= n,
            forall|j: int| 0 <= j < k ==> #[trigger] ta[j] == tb[j],
        decreases n - k,
    {
        if src[a.start + k] != src[b.start + k] {
            assert(ta[k as int] != tb[k as int]);
            return false;
        }
        assert(ta[k as int] == tb[k as int]);
        k += 1;
    }
    assert(src@.subrange(a.start as int, a.end as int) =~= src@.subrange(
        b.start as int,
        b.end as int,
    ));
    true
}

fn lookup_exec(src: &[u8], table: &Vec<MacroDef>, name: Span) -> (r: Option<MacroDef>)
    requires
        name.start <= name.end <= src.len(),
        names_fit(src@, table@),
    ensures
        r == lookup(src@, table@, name),
{
    let mut k = table.len();
    while k > 0
        invariant
            k <= table.len(),
            name.start <= name.end <= src.len(),
            names_fit(src@, table@),
            lookup_upto(src@, table@, name, k as int) == lookup(src@, table@, name),
        decreases k,
    {
        let d = table[k - 1];
        proof {
            assert(table@[k - 1].0.start <= table@[k - 1].0.end <= src.len());
        }
        if same_text_exec(src, d.0, name) {
            return Some(d);
        }
        k -= 1;
    }
    None
}

fn without_exec(src: &[u8], table: &Vec<MacroDef>, name: Span) -> (r: Vec<MacroDef>)
    requires
        name.start <= name.end <= src.len(),
        names_fit(src@, table@),
    ensures
        r@ == without(src@, table@, name),
{
    let mut out: Vec<MacroDef> = Vec::new();
    let mut k: usize = 0;
    while k < table.len()
        invariant
            k <= table.len(),
            name.start <= name.end <= src.len(),
            names_fit(src@, table@),
            out@ == without_upto(src@, table@, name, k as int),
        decreases table.len() - k,
    {
        let d = table[k];
        proof {
            assert(table@[k as int].0.start <= table@[k as int].0.end <= src.len());
        }
        if !same_text_exec(src, d.0, name) {
            out.push(d);
        }
        k += 1;
    }
    out
}

fn push_range(out: &mut Vec<SpannedToken>, toks: &Vec<SpannedToken>, a: usize, b: usize)
    requires
        a <= b <= toks.len(),
    ensures
        final(out)@ == old(out)@ + toks@.subrange(a as int, b as int),
{
    let mut k = a;
    while k < b
        invariant
            a <= k <= b <= toks.len(),
            out@ == old(out)@ + toks@.subrange(a as int, k as int),
        decreases b - k,
    {
        out.push(toks[k]);
        assert(toks@.subrange(a as int, k + 1) =~= toks@.subrange(a as int, k as int).push(
            toks@[k as int],
        ));
        k += 1;
    }
}

/// Applies the directives and expands the macros of `toks`: see
/// `spec_preprocess`.
pub fn preprocess_tokens(src: &[u8], toks: &Vec<SpannedToken>) -> (r: (
    Vec<SpannedToken>,
    Option<Diagnostic>,
))
    requires
        tokens_in(src@, toks@),
    ensures
        r.0@ == spec_preprocess(src@, toks@).0,
        r.1 == spec_preprocess(src@, toks@).1,
{
    let mut out: Vec<SpannedToken> = Vec::new();
    let mut table: Vec<MacroDef> = Vec::new();
    let mut i: usize = 0;
    while i < toks.len()
        invariant
            i <= toks.len(),
            tokens_in(src@, toks@),
            table_fits(src@, table@, toks.len() as int),
            spec_preprocess(src@, toks@).0 == out@ + preprocess_from(
                src@,
                toks@,
                i as int,
                table@,
            ).0,
            spec_preprocess(src@, toks@).1 == preprocess_from(src@, toks@, i as int, table@).1,
        decreases toks.len() - i,
    {
        let (s, t, e) = toks[i];
        proof {
            assert(toks@[i as int].0 <= toks@[i as int].2 <= src@.len());
        }
        if t == Token::Define || t == Token::Undef {
            let has_name = i + 1 < toks.len() && toks[i + 1].1 == Token::Name && no_newline_exec(
                src,
                e,
                toks[i + 1].0,
            );
            if !has_name {
                let d = Diagnostic {
                    kind: DiagnosticKind::MacroNameExpected,
                    span: Span { start: s, end: e },
                };
                push_range(&mut out, toks, i, toks.len());
                return (out, Some(d));
            }
            let name = Span { start: toks[i + 1].0, end: toks[i + 1].2 };
            proof {
                assert(toks@[i + 1].0 <= toks@[i + 1].2 <= src@.len());
            }
            if t == Token::Define {
                let end = line_end_token_exec(src, toks, i + 2);
                proof {
                    lemma_line_end_token(src@, toks@, i + 2);
                }
                let ghost old_table = table@;
                table.push((name, i + 2, end));
                proof {
                    assert forall|k: int| 0 <= k < table@.len() implies (#[trigger] table@[k]).0.start
                        <= table@[k].0.end <= src.len() && table@[k].1 <= table@[k].2
                        <= toks.len() by {
                        if k < old_table.len() {
                            assert(table@[k] == old_table[k]);
                        }
                    }
                }
                i = end;
            } else {
                match lookup_exec(src, &table, name) {
                    Some(_) => {
                        proof {
                            lemma_without_fits(
                                src@,
                                table@,
                                name,
                                table@.len() as int,
                                toks.len() as int,
                            );
                        }
                        table = without_exec(src, &table, name);
                        i = i + 2;
                    },
                    None => {
                        let d = Diagnostic { kind: DiagnosticKind::UndefinedMacro, span: name };
                        push_range(&mut out, toks, i, toks.len());
                        return (out, Some(d));
                    },
                }
            }
        } else {
            let ghost old_out = out@;
            let ghost rest = preprocess_from(src@, toks@, i + 1, table@).0;
            let found = lookup_exec(src, &table, Span { start: s, end: e });
            proof {
                lemma_lookup_fits(
                    src@,
                    table@,
                    Span { start: s, end: e },
                    table@.len() as int,
                    toks.len() as int,
                );
            }
            match (t, found) {
                (Token::Name, Some((_, a, b))) => {
                    push_range(&mut out, toks, a, b);
                    assert(old_out + (toks@.subrange(a as int, b as int) + rest) =~= out@ + rest);
                },
                _ => {
                    out.push((s, t, e));
                    assert(old_out + (seq![toks@[i as int]] + rest) =~= out@ + rest);
                },
            }
            i = i + 1;
        }
    }
    assert(out@ + preprocess_from(src@, toks@, i as int, table@).0 =~= out@);
    (out, None)
}


/// Every token of `toks` has the property `pred`.
pub open spec fn all_tokens(toks: Seq<SpannedToken>, pred: spec_fn(SpannedToken) -> bool) -> bool {
    forall|k: int| 0 <= k < toks.len() ==> #[trigger] pred(toks[k])
}

proof fn lemma_preprocess_from_keeps(
    src: Seq<u8>,
    toks: Seq<SpannedToken>,
    i: int,
    table: Seq<MacroDef>,
    pred: spec_fn(SpannedToken) -> bool,
)
    requires
        tokens_in(src, toks),
        all_tokens(toks, pred),
        table_fits(src, table, toks.len() as int),
        0 <= i,
        toks.len() <= usize::MAX,
    ensures
        all_tokens(preprocess_from(src, toks, i, table).0, pred),
    decreases toks.len() - i,
{
    if i < toks.len() {
        if toks[i].1 == Token::Define || toks[i].1 == Token::Undef {
            if !directive_has_name(src, toks, i) {
                let r = toks.subrange(i, toks.len() as int);
                assert forall|k: int| 0 <= k < r.len() implies pred(#[trigger] r[k]) by {
                    assert(r[k] == toks[i + k]);
                }
            } else if toks[i].1 == Token::Define {
                let e = line_end_token(src, toks, i + 2);
                if i + 2 <= toks.len() {
                    lemma_line_end_token(src, toks, i + 2);
                }
                if !(e < i + 2 || e > toks.len()) {
                    let t2 = table.push((tok_span_at(toks, i + 1), (i + 2) as usize, e as usize));
                    assert(toks[i + 1].0 <= toks[i + 1].2 <= src.len());
                    assert forall|k: int| 0 <= k < t2.len() implies (#[trigger] t2[k]).0.start
                        <= t2[k].0.end <= src.len() && t2[k].1 <= t2[k].2 <= toks.len() by {
                        if k < table.len() {
                            assert(t2[k] == table[k]);
                        }
                    }
                    lemma_preprocess_from_keeps(src, toks, e, t2, pred);
                }
            } else if lookup(src, table, tok_span_at(toks, i + 1)) is Some {
                lemma_without_fits(
                    src,
                    table,
                    tok_span_at(toks, i + 1),
                    table.len() as int,
                    toks.len() as int,
                );
                lemma_preprocess_from_keeps(
                    src,
                    toks,
                    i + 2,
                    without(src, table, tok_span_at(toks, i + 1)),
                    pred,
                );
            } else {
                let r = toks.subrange(i, toks.len() as int);
                assert forall|k: int| 0 <= k < r.len() implies pred(#[trigger] r[k]) by {
                    assert(r[k] == toks[i + k]);
                }
            }
        } else {
            lemma_preprocess_from_keeps(src, toks, i + 1, table, pred);
            let (rest, d) = preprocess_from(src, toks, i + 1, table);
            lemma_lookup_fits(src, table, tok_span_at(toks, i), table.len() as int, toks.len() as int);
            match (toks[i].1, lookup(src, table, tok_span_at(toks, i))) {
                (Token::Name, Some((_, a, b))) => {
                    let r = toks.subrange(a as int, b as int) + rest;
                    assert forall|k: int| 0 <= k < r.len() implies pred(#[trigger] r[k]) by {
                        if k < b - a {
                            assert(r[k] == toks[a + k]);
                        } else {
                            assert(r[k] == rest[k - (b - a)]);
                        }
                    }
                },
                _ => {
                    let r = seq![toks[i]] + rest;
                    assert forall|k: int| 0 <= k < r.len() implies pred(#[trigger] r[k]) by {
                        if k > 0 {
                            assert(r[k] == rest[k - 1]);
                        }
                    }
                },
            }
        }
    }
}

/// Preprocessing only drops tokens and copies tokens of its input: a
/// property of every input token holds of every output token.
pub proof fn lemma_preprocess_keeps(
    src: Seq<u8>,
    toks: Seq<SpannedToken>,
    pred: spec_fn(SpannedToken) -> bool,
)
    requires
        tokens_in(src, toks),
        all_tokens(toks, pred),
        toks.len() <= usize::MAX,
    ensures
        all_tokens(spec_preprocess(src, toks).0, pred),
{
    lemma_preprocess_from_keeps(src, toks, 0, Seq::empty(), pred);
}

/// Preprocessing keeps every token inside the source.
pub proof fn lemma_preprocess_fits(src: Seq<u8>, toks: Seq<SpannedToken>)
    requires
        tokens_in(src, toks),
        toks.len() <= usize::MAX,
    ensures
        tokens_in(src, spec_preprocess(src, toks).0),
{
    let pred = |t: SpannedToken| t.0 <= t.2 <= src.len();
    assert(all_tokens(toks, pred)) by {
        assert forall|k: int| 0 <= k < toks.len() implies #[trigger] pred(toks[k]) by {
            assert(toks[k].0 <= toks[k].2 <= src.len());
        }
    }
    lemma_preprocess_keeps(src, toks, pred);
    let out = spec_preprocess(src, toks).0;
    assert forall|k: int| 0 <= k < out.len() implies (#[trigger] out[k]).0 <= out[k].2 <= src.len() by {
        assert(pred(out[k]));
    }
}


proof fn lemma_no_directives_from(src: Seq<u8>, toks: Seq<SpannedToken>, i: int)
    requires
        0 <= i <= toks.len(),
        forall|k: int|
            0 <= k < toks.len() ==> (#[trigger] toks[k]).1 != Token::Define && toks[k].1
                != Token::Undef,
    ensures
        preprocess_from(src, toks, i, Seq::empty()) == (
            toks.subrange(i, toks.len() as int),
            None::<Diagnostic>,
        ),
    decreases toks.len() - i,
{
    if i < toks.len() {
        lemma_no_directives_from(src, toks, i + 1);
        assert(toks[i].1 != Token::Define && toks[i].1 != Token::Undef);
        assert(lookup(src, Seq::empty(), tok_span_at(toks, i)) is None);
        assert(seq![toks[i]] + toks.subrange(i + 1, toks.len() as int) =~= toks.subrange(
            i,
            toks.len() as int,
        ));
    } else {
        assert(toks.subrange(i, toks.len() as int) =~= Seq::<SpannedToken>::empty());
    }
}

/// Tokens without directives pass through the preprocessor unchanged: with
/// no definition, no name is expanded.
pub proof fn lemma_preprocess_without_directives(src: Seq<u8>, toks: Seq<SpannedToken>)
    requires
        forall|k: int|
            0 <= k < toks.len() ==> (#[trigger] toks[k]).1 != Token::Define && toks[k].1
                != Token::Undef,
    ensures
        spec_preprocess(src, toks) == (toks, None::<Diagnostic>),
{
    lemma_no_directives_from(src, toks, 0);
    assert(toks.subrange(0, toks.len() as int) =~= toks);
}

/// The preprocessor reads the source only through the text of tokens and
/// the line breaks between tokens: two sources that agree on both give the
/// same result.
pub open spec fn reads_alike(s: Seq<u8>, t: Seq<u8>, toks: Seq<SpannedToken>) -> bool {
    &&& forall|k: int|
        0 <= k < toks.len() ==> s.subrange((#[trigger] toks[k]).0 as int, toks[k].2 as int)
            == t.subrange(toks[k].0 as int, toks[k].2 as int)
    &&& forall|k: int|
        0 < k < toks.len() ==> no_newline(s, toks[k - 1].2 as int, (#[trigger] toks[k]).0 as int)
            == no_newline(t, toks[k - 1].2 as int, toks[k].0 as int)
}

/// Every definition of `table` is named by a span of the same text in `s`
/// and `t`.
pub open spec fn names_alike(s: Seq<u8>, t: Seq<u8>, table: Seq<MacroDef>) -> bool {
    forall|k: int|
        0 <= k < table.len() ==> s.subrange(
            (#[trigger] table[k]).0.start as int,
            table[k].0.end as int,
        ) == t.subrange(table[k].0.start as int, table[k].0.end as int)
}

proof fn lemma_line_end_token_alike(s: Seq<u8>, t: Seq<u8>, toks: Seq<SpannedToken>, k: int)
    requires
        reads_alike(s, t, toks),
    ensures
        line_end_token(s, toks, k) == line_end_token(t, toks, k),
    decreases toks.len() - k,
{
    if 0 < k < toks.len() {
        assert(no_newline(s, toks[k - 1].2 as int, toks[k].0 as int) == no_newline(
            t,
            toks[k - 1].2 as int,
            toks[k].0 as int,
        ));
        lemma_line_end_token_alike(s, t, toks, k + 1);
    }
}

proof fn lemma_lookup_alike(s: Seq<u8>, t: Seq<u8>, table: Seq<MacroDef>, name: Span, k: int)
    requires
        names_alike(s, t, table),
        s.subrange(name.start as int, name.end as int) == t.subrange(
            name.start as int,
            name.end as int,
        ),
    ensures
        lookup_upto(s, table, name, k) == lookup_upto(t, table, name, k),
    decreases k,
{
    if 0 < k <= table.len() {
        assert(same_text(s, table[k - 1].0, name) == same_text(t, table[k - 1].0, name));
        lemma_lookup_alike(s, t, table, name, k - 1);
    }
}

proof fn lemma_without_alike(s: Seq<u8>, t: Seq<u8>, table: Seq<MacroDef>, name: Span, k: int)
    requires
        names_alike(s, t, table),
        s.subrange(name.start as int, name.end as int) == t.subrange(
            name.start as int,
            name.end as int,
        ),
    ensures
        without_upto(s, table, name, k) == without_upto(t, table, name, k),
        names_alike(s, t, without_upto(s, table, name, k)),
    decreases k,
{
    if 0 < k <= table.len() {
        assert(same_text(s, table[k - 1].0, name) == same_text(t, table[k - 1].0, name));
        lemma_without_alike(s, t, table, name, k - 1);
        let w = without_upto(s, table, name, k - 1);
        if !same_text(s, table[k - 1].0, name) {
            assert forall|j: int| 0 <= j < w.push(table[k - 1]).len() implies s.subrange(
                (#[trigger] w.push(table[k - 1])[j]).0.start as int,
                w.push(table[k - 1])[j].0.end as int,
            ) == t.subrange(
                w.push(table[k - 1])[j].0.start as int,
                w.push(table[k - 1])[j].0.end as int,
            ) by {
                if j < w.len() {
                    assert(w.push(table[k - 1])[j] == w[j]);
                } else {
                    assert(w.push(table[k - 1])[j] == table[k - 1]);
                }
            }
        }
    }
}

proof fn lemma_preprocess_from_alike(
    s: Seq<u8>,
    t: Seq<u8>,
    toks: Seq<SpannedToken>,
    i: int,
    table: Seq<MacroDef>,
)
    requires
        reads_alike(s, t, toks),
        names_alike(s, t, table),
    ensures
        preprocess_from(s, toks, i, table) == preprocess_from(t, toks, i, table),
    decreases toks.len() - i,
{
    if 0 <= i < toks.len() {
        let here = tok_span_at(toks, i);
        assert(s.subrange(toks[i].0 as int, toks[i].2 as int) == t.subrange(
            toks[i].0 as int,
            toks[i].2 as int,
        ));
        if i + 1 < toks.len() {
            assert(s.subrange(toks[i + 1].0 as int, toks[i + 1].2 as int) == t.subrange(
                toks[i + 1].0 as int,
                toks[i + 1].2 as int,
            ));
            assert(no_newline(s, toks[i].2 as int, toks[i + 1].0 as int) == no_newline(
                t,
                toks[i].2 as int,
                toks[i + 1].0 as int,
            ));
        }
        if toks[i].1 == Token::Define || toks[i].1 == Token::Undef {
            if directive_has_name(s, toks, i) {
                let name = tok_span_at(toks, i + 1);
                if toks[i].1 == Token::Define {
                    lemma_line_end_token_alike(s, t, toks, i + 2);
                    let e = line_end_token(s, toks, i + 2);
                    let table2 = table.push((name, (i + 2) as usize, e as usize));
                    assert(names_alike(s, t, table2)) by {
                        assert forall|j: int| 0 <= j < table2.len() implies s.subrange(
                            (#[trigger] table2[j]).0.start as int,
                            table2[j].0.end as int,
                        ) == t.subrange(table2[j].0.start as int, table2[j].0.end as int) by {
                            if j < table.len() {
                                assert(table2[j] == table[j]);
                            }
                        }
                    }
                    if e >= i + 2 && e <= toks.len() {
                        lemma_preprocess_from_alike(s, t, toks, e, table2);
                    }
                } else {
                    lemma_lookup_alike(s, t, table, name, table.len() as int);
                    lemma_without_alike(s, t, table, name, table.len() as int);
                    lemma_preprocess_from_alike(s, t, toks, i + 2, without(s, table, name));
                }
            }
        } else {
            lemma_lookup_alike(s, t, table, here, table.len() as int);
            lemma_preprocess_from_alike(s, t, toks, i + 1, table);
        }
    }
}

/// Two sources that agree on the text of every token and on the line breaks
/// between tokens are preprocessed alike.
pub proof fn lemma_preprocess_alike(s: Seq<u8>, t: Seq<u8>, toks: Seq<SpannedToken>)
    requires
        reads_alike(s, t, toks),
    ensures
        spec_preprocess(s, toks) == spec_preprocess(t, toks),
{
    lemma_preprocess_from_alike(s, t, toks, 0, Seq::empty());
}

/// The text of `span` in `src`.
pub open spec fn text_of(src: Seq<u8>, span: Span) -> Seq<u8> {
    src.subrange(span.start as int, span.end as int)
}

/// A name is looked up by its text, byte for byte: what is found is the
/// newest of the first `k` definitions whose name has the same text as the
/// name, and nothing is found when none has.
pub proof fn lemma_lookup_by_text(src: Seq<u8>, table: Seq<MacroDef>, name: Span, k: int)
    requires
        0 <= k <= table.len(),
    ensures
        lookup_upto(src, table, name, k) matches Some(d) ==> exists|idx: int|
            0 <= idx < k && table[idx] == d && text_of(src, d.0) == text_of(src, name) && forall|
                j: int,
            |
                idx < j < k ==> text_of(src, #[trigger] table[j].0) != text_of(src, name),
        lookup_upto(src, table, name, k) is None ==> forall|j: int|
            0 <= j < k ==> text_of(src, #[trigger] table[j].0) != text_of(src, name),
    decreases k,
{
    if k > 0 {
        lemma_lookup_by_text(src, table, name, k - 1);
        if text_of(src, table[k - 1].0) == text_of(src, name) {
            assert(lookup_upto(src, table, name, k) == Some(table[k - 1]));
        } else {
            assert(!same_text(src, table[k - 1].0, name));
            if let Some(d) = lookup_upto(src, table, name, k - 1) {
                let idx = choose|idx: int|
                    0 <= idx < k - 1 && table[idx] == d && text_of(src, d.0) == text_of(src, name)
                        && forall|j: int|
                        idx < j < k - 1 ==> text_of(src, #[trigger] table[j].0) != text_of(
                            src,
                            name,
                        );
                assert forall|j: int| idx < j < k implies text_of(src, #[trigger] table[j].0)
                    != text_of(src, name) by {
                    if j < k - 1 {
                    }
                }
            }
        }
    }
}

/// The body of a definition runs to the end of its line: every token from
/// `k` up to the end found is on the line of the token before it, and the
/// token at the end, if any, starts a new line.
pub proof fn lemma_line_end_token_is_line_end(src: Seq<u8>, toks: Seq<SpannedToken>, k: int)
    requires
        0 < k <= toks.len(),
    ensures
        ({
            let e = line_end_token(src, toks, k);
            &&& k <= e <= toks.len()
            &&& forall|j: int| k <= j < e ==> no_newline(
                src,
                toks[j - 1].2 as int,
                (#[trigger] toks[j]).0 as int,
            )
            &&& e < toks.len() ==> !no_newline(src, toks[e - 1].2 as int, toks[e].0 as int)
        }),
    decreases toks.len() - k,
{
    if k < toks.len() && no_newline(src, toks[k - 1].2 as int, toks[k].0 as int) {
        lemma_line_end_token_is_line_end(src, toks, k + 1);
    }
}

/// Removing the definitions of a name keeps, in order, exactly the
/// definitions whose name is spelled otherwise.
pub proof fn lemma_without_by_text(src: Seq<u8>, table: Seq<MacroDef>, name: Span, k: int)
    requires
        0 <= k <= table.len(),
    ensures
        without_upto(src, table, name, k) == table.subrange(0, k).filter(
            |d: MacroDef| text_of(src, d.0) != text_of(src, name),
        ),
    decreases k,
{
    let f = |d: MacroDef| text_of(src, d.0) != text_of(src, name);
    if k > 0 {
        lemma_without_by_text(src, table, name, k - 1);
        assert(table.subrange(0, k).drop_last() =~= table.subrange(0, k - 1));
        reveal(Seq::filter);
        assert(table.subrange(0, k).last() == table[k - 1]);
    } else {
        assert(table.subrange(0, 0) =~= Seq::<MacroDef>::empty());
        reveal(Seq::filter);
    }
}

} // verus!
