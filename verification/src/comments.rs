//! Comments read as blank space: the tokenizer gives the same tokens and
//! diagnostics for a text with a comment as for the text with blank space
//! in the comment's place.
use vstd::prelude::*;

use crate::grammar::token_texts;
use crate::lexer::{
    byte_at, comment_close, in_class, lemma_lex_from_ordered, lex_from, lex_step, line_end,
    number_end, run_end, spec_lex, string_close, tokens_ordered, CharClass, Lexeme,
};
use crate::parser::spec_parse;
use crate::pre_processor::{
    all_tokens, lemma_preprocess_alike, lemma_preprocess_keeps, no_newline, reads_alike,
    spec_preprocess, tokens_in,
};
use crate::token::SpannedToken;

verus! {

/// `s` and `t` have the same length and the same bytes from `lo` to `hi`.
pub open spec fn agree(s: Seq<u8>, t: Seq<u8>, lo: int, hi: int) -> bool {
    s.len() == t.len() && forall|k: int|
        #![trigger s[k]]
        #![trigger t[k]]
        lo <= k <= hi && 0 <= k < s.len() ==> s[k] == t[k]
}

/// The tokenizer, reading lexemes one after the other from `i`, comes to a
/// lexeme that starts at `n`.
pub open spec fn reaches(s: Seq<u8>, i: int, n: int) -> bool
    decreases n - i,
{
    if i >= n {
        i == n
    } else {
        let j = lex_step(s, i).1;
        i < j && j <= n && reaches(s, j, n)
    }
}

/// The bytes of `t` from `m` to `e` are one comment, `//` up to a line feed
/// or `/* .. */`.
pub open spec fn comment_at(t: Seq<u8>, m: int, e: int) -> bool {
    &&& 0 <= m
    &&& m + 1 < t.len()
    &&& t[m] == '/' as u8
    &&& (t[m + 1] == '/' as u8 && line_end(t, m + 2) == e) || (t[m + 1] == '*' as u8
        && comment_close(t, m + 2) == Some(e - 2))
}

// Reading from `n` on looks at the bytes from `n` on only.
proof fn lemma_run_end_after(s: Seq<u8>, t: Seq<u8>, i: int, c: CharClass, n: int)
    requires
        agree(s, t, n, s.len() as int),
        0 <= n <= i,
    ensures
        run_end(s, i, c) == run_end(t, i, c),
    decreases s.len() - i,
{
    if 0 <= i < s.len() && in_class(c, s[i]) {
        lemma_run_end_after(s, t, i + 1, c, n);
    }
}

proof fn lemma_line_end_after(s: Seq<u8>, t: Seq<u8>, i: int, n: int)
    requires
        agree(s, t, n, s.len() as int),
        0 <= n <= i,
    ensures
        line_end(s, i) == line_end(t, i),
    decreases s.len() - i,
{
    if 0 <= i < s.len() && s[i] != '\n' as u8 {
        lemma_line_end_after(s, t, i + 1, n);
    }
}

proof fn lemma_comment_close_after(s: Seq<u8>, t: Seq<u8>, i: int, n: int)
    requires
        agree(s, t, n, s.len() as int),
        0 <= n <= i,
    ensures
        comment_close(s, i) == comment_close(t, i),
    decreases s.len() - i,
{
    if 0 <= i && i + 1 < s.len() {
        assert(s[i] == t[i] && s[i + 1] == t[i + 1]);
        lemma_comment_close_after(s, t, i + 1, n);
    }
}

proof fn lemma_string_close_after(s: Seq<u8>, t: Seq<u8>, i: int, n: int)
    requires
        agree(s, t, n, s.len() as int),
        0 <= n <= i,
    ensures
        string_close(s, i) == string_close(t, i),
    decreases s.len() - i,
{
    if 0 <= i < s.len() {
        assert(s[i] == t[i]);
        lemma_string_close_after(s, t, i + 1, n);
        if i + 1 < s.len() {
            lemma_string_close_after(s, t, i + 2, n);
        }
    }
}

proof fn lemma_lex_step_after(s: Seq<u8>, t: Seq<u8>, i: int, n: int)
    requires
        agree(s, t, n, s.len() as int),
        0 <= n <= i < s.len(),
    ensures
        lex_step(s, i) == lex_step(t, i),
{
    assert(s[i] == t[i]);
    assert(byte_at(s, i + 1) == byte_at(t, i + 1));
    assert(byte_at(s, i + 2) == byte_at(t, i + 2));
    lemma_run_end_after(s, t, i, CharClass::Space, n);
    lemma_run_end_after(s, t, i, CharClass::IdentChar, n);
    lemma_run_end_after(s, t, i, CharClass::Digit, n);
    lemma_run_end_after(s, t, i + 1, CharClass::IdentChar, n);
    lemma_run_end_after(s, t, i + 1, CharClass::Continuation, n);
    lemma_run_end_after(s, t, i + 2, CharClass::HexDigit, n);
    lemma_run_end_after(s, t, i + 2, CharClass::BinDigit, n);
    lemma_run_end_after(s, t, i + 2, CharClass::OctDigit, n);
    lemma_line_end_after(s, t, i + 2, n);
    lemma_comment_close_after(s, t, i + 2, n);
    lemma_string_close_after(s, t, i + 1, n);
    crate::lexer::lemma_run_end(s, i, CharClass::IdentChar);
    crate::lexer::lemma_run_end(s, i, CharClass::Digit);
    crate::lexer::lemma_run_end(s, i + 1, CharClass::IdentChar);
    let e = run_end(s, i, CharClass::IdentChar);
    let d = run_end(s, i, CharClass::Digit);
    lemma_run_end_after(s, t, d + 1, CharClass::Digit, n);
    assert(byte_at(s, e) == byte_at(t, e));
    assert(byte_at(s, e + 1) == byte_at(t, e + 1));
    assert(byte_at(s, d) == byte_at(t, d));
    assert(byte_at(s, d + 1) == byte_at(t, d + 1));
    assert(number_end(s, i) == number_end(t, i));
    assert(s.subrange(i, e) =~= t.subrange(i, e));
    let w = run_end(s, i + 1, CharClass::IdentChar);
    assert(s.subrange(i + 1, w) =~= t.subrange(i + 1, w));
}

proof fn lemma_lex_from_after(s: Seq<u8>, t: Seq<u8>, i: int, n: int)
    requires
        agree(s, t, n, s.len() as int),
        0 <= n <= i,
    ensures
        lex_from(s, i) == lex_from(t, i),
    decreases s.len() - i,
{
    if 0 <= i < s.len() {
        lemma_lex_step_after(s, t, i, n);
        let j = lex_step(s, i).1;
        if i < j <= s.len() {
            lemma_lex_from_after(s, t, j, n);
        }
    }
}

// A lexeme that ends by `n` reads the bytes up to `n` only.
proof fn lemma_run_end_before(s: Seq<u8>, t: Seq<u8>, i: int, c: CharClass, n: int)
    requires
        agree(s, t, 0, n),
        0 <= i <= s.len(),
        run_end(s, i, c) <= n,
    ensures
        run_end(s, i, c) == run_end(t, i, c),
    decreases s.len() - i,
{
    crate::lexer::lemma_run_end(s, i, c);
    if i < s.len() {
        assert(s[i] == t[i]);
        if in_class(c, s[i]) {
            lemma_run_end_before(s, t, i + 1, c, n);
        }
    }
}

/// A run of a class that does not hold the byte at `n` ends by `n`.
proof fn lemma_run_end_stops(s: Seq<u8>, i: int, c: CharClass, n: int)
    requires
        0 <= i <= n < s.len(),
        !in_class(c, s[n]),
    ensures
        run_end(s, i, c) <= n,
    decreases s.len() - i,
{
    if in_class(c, s[i]) {
        assert(i != n);
        lemma_run_end_stops(s, i + 1, c, n);
    }
}

proof fn lemma_line_end_before(s: Seq<u8>, t: Seq<u8>, i: int, n: int)
    requires
        agree(s, t, 0, n),
        0 <= i <= s.len(),
        line_end(s, i) <= n,
    ensures
        line_end(s, i) == line_end(t, i),
    decreases s.len() - i,
{
    crate::lexer::lemma_line_end(s, i);
    if i < s.len() {
        assert(s[i] == t[i]);
        if s[i] != '\n' as u8 {
            lemma_line_end_before(s, t, i + 1, n);
        }
    }
}

proof fn lemma_comment_close_before(s: Seq<u8>, t: Seq<u8>, i: int, k: int, n: int)
    requires
        agree(s, t, 0, n),
        0 <= i,
        comment_close(s, i) == Some(k),
        k + 1 <= n,
    ensures
        comment_close(t, i) == Some(k),
    decreases s.len() - i,
{
    if i + 1 < s.len() {
        if s[i] == '*' as u8 && s[i + 1] == '/' as u8 {
            assert(s[i] == t[i] && s[i + 1] == t[i + 1]);
        } else {
            lemma_comment_close_before(s, t, i + 1, k, n);
            lemma_comment_close_at_least(s, i + 1, k);
            assert(s[i] == t[i] && s[i + 1] == t[i + 1]);
        }
    }
}

proof fn lemma_comment_close_at_least(s: Seq<u8>, i: int, k: int)
    requires
        comment_close(s, i) == Some(k),
    ensures
        i <= k,
    decreases s.len() - i,
{
    if 0 <= i && i + 1 < s.len() && !(s[i] == '*' as u8 && s[i + 1] == '/' as u8) {
        lemma_comment_close_at_least(s, i + 1, k);
    }
}

proof fn lemma_string_close_at_least(s: Seq<u8>, i: int, k: int)
    requires
        string_close(s, i) == Some(k),
    ensures
        i <= k,
    decreases s.len() - i,
{
    if 0 <= i < s.len() && s[i] != '"' as u8 {
        if s[i] == '\\' as u8 {
            if i + 1 < s.len() {
                lemma_string_close_at_least(s, i + 2, k);
            }
        } else {
            lemma_string_close_at_least(s, i + 1, k);
        }
    }
}

proof fn lemma_string_close_before(s: Seq<u8>, t: Seq<u8>, i: int, k: int, n: int)
    requires
        agree(s, t, 0, n),
        0 <= i,
        string_close(s, i) == Some(k),
        k <= n,
    ensures
        string_close(t, i) == Some(k),
    decreases s.len() - i,
{
    lemma_string_close_at_least(s, i, k);
    if i < s.len() {
        assert(s[i] == t[i]);
        if s[i] == '\\' as u8 {
            if i + 1 < s.len() {
                lemma_string_close_before(s, t, i + 2, k, n);
            }
        } else if s[i] != '"' as u8 {
            lemma_string_close_before(s, t, i + 1, k, n);
        }
    }
}

/// A lexeme that starts before the blank byte at `n` and ends by `n` is the
/// same in a text that agrees with `s` up to `n`.
proof fn lemma_lex_step_before(s: Seq<u8>, t: Seq<u8>, i: int, n: int)
    requires
        agree(s, t, 0, n),
        0 <= i < n < s.len(),
        in_class(CharClass::Space, s[n]),
        lex_step(s, i).1 <= n,
    ensures
        lex_step(s, i) == lex_step(t, i),
{
    let c = s[i];
    assert(c == t[i]);
    assert(byte_at(s, i + 1) == byte_at(t, i + 1));
    let j = lex_step(s, i).1;
    crate::lexer::lemma_run_end(s, i, CharClass::IdentChar);
    crate::lexer::lemma_run_end(s, i + 1, CharClass::IdentChar);
    lemma_run_end_stops(s, i, CharClass::IdentChar, n);
    lemma_run_end_before(s, t, i, CharClass::IdentChar, n);
    lemma_run_end_stops(s, i + 1, CharClass::IdentChar, n);
    lemma_run_end_before(s, t, i + 1, CharClass::IdentChar, n);
    let e = run_end(s, i, CharClass::IdentChar);
    assert(s.subrange(i, e) =~= t.subrange(i, e));
    let w = run_end(s, i + 1, CharClass::IdentChar);
    assert(s.subrange(i + 1, w) =~= t.subrange(i + 1, w));
    assert(byte_at(s, e) == byte_at(t, e));
    if byte_at(s, e) == '=' as u8 {
        assert(e < n);
        assert(byte_at(s, e + 1) == byte_at(t, e + 1));
    }
    if in_class(CharClass::Space, c) {
        lemma_run_end_before(s, t, i, CharClass::Space, n);
    } else if c == '/' as u8 && byte_at(s, i + 1) == '/' as u8 {
        lemma_line_end_before(s, t, i + 2, n);
    } else if c == '/' as u8 && byte_at(s, i + 1) == '*' as u8 {
        if let Some(k) = comment_close(s, i + 2) {
            lemma_comment_close_before(s, t, i + 2, k, n);
        }
    } else if c == '"' as u8 {
        if let Some(k) = string_close(s, i + 1) {
            lemma_string_close_before(s, t, i + 1, k, n);
        }
    } else if in_class(CharClass::Digit, c) {
        let c1 = byte_at(s, i + 1);
        if i + 1 < n {
            assert(byte_at(s, i + 2) == byte_at(t, i + 2));
        }
        if i + 2 <= n {
            lemma_run_end_stops(s, i + 2, CharClass::HexDigit, n);
            lemma_run_end_stops(s, i + 2, CharClass::BinDigit, n);
            lemma_run_end_stops(s, i + 2, CharClass::OctDigit, n);
            lemma_run_end_before(s, t, i + 2, CharClass::HexDigit, n);
            lemma_run_end_before(s, t, i + 2, CharClass::BinDigit, n);
            lemma_run_end_before(s, t, i + 2, CharClass::OctDigit, n);
        }
        lemma_run_end_stops(s, i, CharClass::Digit, n);
        lemma_run_end_before(s, t, i, CharClass::Digit, n);
        let d = run_end(s, i, CharClass::Digit);
        assert(byte_at(s, d) == byte_at(t, d));
        if byte_at(s, d) == '.' as u8 {
            assert(d < n);
            assert(byte_at(s, d + 1) == byte_at(t, d + 1));
            lemma_run_end_stops(s, d + 1, CharClass::Digit, n);
            lemma_run_end_before(s, t, d + 1, CharClass::Digit, n);
        }
        assert(number_end(s, i) == number_end(t, i));
    } else {
        lemma_run_end_stops(s, i + 1, CharClass::Continuation, n);
        lemma_run_end_before(s, t, i + 1, CharClass::Continuation, n);
    }
}

proof fn lemma_lex_from_before(s: Seq<u8>, t: Seq<u8>, i: int, n: int)
    requires
        agree(s, t, 0, n),
        0 <= i <= n < s.len(),
        in_class(CharClass::Space, s[n]),
        reaches(s, i, n),
        lex_from(s, n) == lex_from(t, n),
    ensures
        lex_from(s, i) == lex_from(t, i),
    decreases n - i,
{
    if i < n {
        lemma_lex_step_before(s, t, i, n);
        lemma_lex_from_before(s, t, lex_step(s, i).1, n);
    }
}

/// A run of blank bytes reads as nothing: reading from any byte of it is
/// reading from its end.
proof fn lemma_blank_run(s: Seq<u8>, i: int, e: int)
    requires
        0 <= i <= e <= s.len(),
        forall|k: int| i <= k < e ==> #[trigger] in_class(CharClass::Space, s[k]),
    ensures
        lex_from(s, i) == lex_from(s, e),
    decreases e - i,
{
    if i < e {
        lemma_blank_run(s, i + 1, e);
        crate::lexer::lemma_run_end(s, i, CharClass::Space);
        crate::lexer::lemma_run_end(s, i + 1, CharClass::Space);
        if i + 1 < s.len() && in_class(CharClass::Space, s[i + 1]) {
            assert(run_end(s, i, CharClass::Space) == run_end(s, i + 1, CharClass::Space));
            assert(lex_from(s, i + 1) == lex_from(s, run_end(s, i + 1, CharClass::Space)));
        } else {
            assert(run_end(s, i + 1, CharClass::Space) == i + 1);
        }
    }
}

/// A comment reads as blank space. Where `t` holds a comment from `m` to `e`
/// that follows blank space from `q` on, and `s` is `t` with blank bytes in
/// the place of the comment, `s` and `t` have the same tokens and the same
/// diagnostics, provided the tokenizer comes to a lexeme at `q`: the comment
/// stands between lexemes, not inside a string or another comment.
pub proof fn lemma_comment_reads_as_blank(s: Seq<u8>, t: Seq<u8>, q: int, m: int, e: int)
    requires
        0 <= q < m < e <= s.len(),
        agree(s, t, 0, m - 1),
        agree(s, t, e, s.len() as int),
        forall|k: int| q <= k < e ==> #[trigger] in_class(CharClass::Space, s[k]),
        comment_at(t, m, e),
        reaches(s, 0, q),
    ensures
        spec_lex(s) == spec_lex(t),
{
    crate::lexer::lemma_line_end(t, m + 2);
    // Past the comment, both texts read alike.
    lemma_lex_from_after(s, t, e, e);
    // In `s`, the blank from `q` to `e` reads as nothing.
    lemma_blank_run(s, q, e);
    // In `t`, the blank from `q` to `m` reads as nothing, then the comment.
    assert forall|k: int| q <= k < m implies #[trigger] in_class(CharClass::Space, t[k]) by {
        assert(s[k] == t[k]);
        assert(in_class(CharClass::Space, s[k]));
    }
    lemma_blank_run(t, q, m);
    assert(!in_class(CharClass::Space, t[m]));
    assert(lex_step(t, m) == (Lexeme::Skip, e));
    assert(lex_from(t, m) == lex_from(t, e));
    // Before `q`, both texts read alike.
    lemma_lex_from_before(s, t, 0, q);
}

/// Reading from `i` gives at most one token per byte.
proof fn lemma_token_count(s: Seq<u8>, i: int)
    requires
        0 <= i <= s.len(),
    ensures
        lex_from(s, i).0.len() <= s.len() - i,
    decreases s.len() - i,
{
    if i < s.len() {
        let j = lex_step(s, i).1;
        if i < j <= s.len() {
            lemma_token_count(s, j);
        }
    }
}

/// The tokens read from `i`, on the way to `q`, end by `q` or start at `e`
/// or later, when reading from `q` is reading from `e`.
proof fn lemma_tokens_outside(s: Seq<u8>, i: int, q: int, e: int)
    requires
        s.len() <= usize::MAX,
        0 <= i <= q <= e <= s.len(),
        reaches(s, i, q),
        lex_from(s, q) == lex_from(s, e),
    ensures
        forall|k: int|
            0 <= k < lex_from(s, i).0.len() ==> (#[trigger] lex_from(s, i).0[k]).2 <= q
                || lex_from(s, i).0[k].0 >= e,
    decreases q - i,
{
    if i < q {
        let j = lex_step(s, i).1;
        lemma_tokens_outside(s, j, q, e);
        let ts = lex_from(s, i).0;
        let rest = lex_from(s, j).0;
        assert forall|k: int| 0 <= k < ts.len() implies (#[trigger] ts[k]).2 <= q || ts[k].0
            >= e by {
            if ts.len() == rest.len() + 1 {
                if k > 0 {
                    assert(ts[k] == rest[k - 1]);
                }
            } else {
                assert(ts[k] == rest[k]);
            }
        }
    } else {
        lemma_lex_from_ordered(s, e);
        assert(tokens_ordered(lex_from(s, e).0, e, s.len() as int));
    }
}

/// A comment reads as blank space for the whole front end. Where `t` holds a
/// comment from `m` to `e` that follows blank space from `q` on, and `s` is
/// `t` with blank bytes in the place of the comment that keep its line
/// breaks, parsing `s` and `t` gives the same sprite and the same
/// diagnostics, provided the tokenizer comes to a lexeme at `q`. So in
/// `x = 10 // 3`, the `// 3` reads as the blank of `x = 10     `.
pub proof fn lemma_comment_parses_as_blank(s: Seq<u8>, t: Seq<u8>, q: int, m: int, e: int)
    requires
        s.len() <= usize::MAX,
        0 <= q < m < e <= s.len(),
        agree(s, t, 0, m - 1),
        agree(s, t, e, s.len() as int),
        forall|k: int| q <= k < e ==> #[trigger] in_class(CharClass::Space, s[k]),
        forall|k: int| m <= k < e ==> (#[trigger] s[k] == '\n' as u8) == (t[k] == '\n' as u8),
        comment_at(t, m, e),
        reaches(s, 0, q),
    ensures
        spec_parse(s) == spec_parse(t),
{
    lemma_comment_reads_as_blank(s, t, q, m, e);
    let toks = spec_lex(s).0;
    lemma_blank_run(s, q, e);
    lemma_tokens_outside(s, 0, q, e);
    lemma_lex_from_ordered(s, 0);
    lemma_token_count(s, 0);
    // Every token has the same text in both, and so do the line breaks.
    let pred = |x: SpannedToken|
        s.subrange(x.0 as int, x.2 as int) == t.subrange(x.0 as int, x.2 as int);
    assert forall|k: int| 0 <= k < toks.len() implies #[trigger] pred(toks[k]) by {
        let (a, b) = (toks[k].0 as int, toks[k].2 as int);
        assert(0 <= a < b <= s.len());
        assert(s.subrange(a, b) =~= t.subrange(a, b)) by {
            assert forall|j: int| 0 <= j < b - a implies s.subrange(a, b)[j] == t.subrange(
                a,
                b,
            )[j] by {
                assert(s[a + j] == t[a + j]);
            }
        }
    }
    assert forall|j: int| 0 <= j < s.len() implies (#[trigger] s[j] == '\n' as u8) == (t[j]
        == '\n' as u8) by {
        if j < m {
            assert(s[j] == t[j]);
        } else if j >= e {
            assert(s[j] == t[j]);
        }
    }
    assert(reads_alike(s, t, toks)) by {
        assert forall|k: int| 0 <= k < toks.len() implies s.subrange(
            (#[trigger] toks[k]).0 as int,
            toks[k].2 as int,
        ) == t.subrange(toks[k].0 as int, toks[k].2 as int) by {
            assert(pred(toks[k]));
        }
        assert forall|k: int| 0 < k < toks.len() implies no_newline(
            s,
            toks[k - 1].2 as int,
            (#[trigger] toks[k]).0 as int,
        ) == no_newline(t, toks[k - 1].2 as int, toks[k].0 as int) by {
            let (a, b) = (toks[k - 1].2 as int, toks[k].0 as int);
            assert(0 <= a <= b <= s.len());
            if no_newline(s, a, b) {
                assert forall|j: int| a <= j < b implies #[trigger] t[j] != '\n' as u8 by {
                    assert(s[j] != '\n' as u8);
                }
            } else {
                let j = choose|j: int| a <= j < b && #[trigger] s[j] == '\n' as u8;
                assert(t[j] == '\n' as u8);
            }
        }
    }
    lemma_preprocess_alike(s, t, toks);
    let toks2 = spec_preprocess(s, toks).0;
    assert(tokens_in(s, toks));
    assert(all_tokens(toks, pred));
    lemma_preprocess_keeps(s, toks, pred);
    assert(token_texts(s, toks2) =~= token_texts(t, toks2)) by {
        assert forall|k: int| 0 <= k < toks2.len() implies token_texts(s, toks2)[k]
            == token_texts(t, toks2)[k] by {
            assert(pred(toks2[k]));
        }
    }
}

} // verus!
