//! The tokenizer: turns the bytes of a source into tokens, skipping white
//! space and comments, and reports the bytes that start no token.
use vstd::prelude::*;

use crate::ast::Span;
use crate::diagnostic::{Diagnostic, DiagnosticKind};
use crate::token::{SpannedToken, Token};

use crate::spelling::spelling;

verus! {

/// Classes of bytes that tokens are made of.
#[derive(Clone, Copy)]
pub enum CharClass {
    Space,
    IdentStart,
    IdentChar,
    Digit,
    HexDigit,
    BinDigit,
    OctDigit,
    /// A byte that continues a UTF-8 encoded character.
    Continuation,
}

pub open spec fn in_class(c: CharClass, b: u8) -> bool {
    let letter = ('a' as u8 <= b <= 'z' as u8) || ('A' as u8 <= b <= 'Z' as u8);
    let digit = '0' as u8 <= b <= '9' as u8;
    match c {
        CharClass::Space => b == ' ' as u8 || b == '\t' as u8 || b == '\n' as u8 || b
            == '\r' as u8,
        CharClass::IdentStart => letter || b == '_' as u8,
        CharClass::IdentChar => letter || digit || b == '_' as u8,
        CharClass::Digit => digit,
        CharClass::HexDigit => digit || ('a' as u8 <= b <= 'f' as u8) || ('A' as u8 <= b
            <= 'F' as u8),
        CharClass::BinDigit => b == '0' as u8 || b == '1' as u8,
        CharClass::OctDigit => '0' as u8 <= b <= '7' as u8,
        CharClass::Continuation => 0x80 <= b <= 0xbf,
    }
}

fn is_in_class(c: CharClass, b: u8) -> (r: bool)
    ensures
        r == in_class(c, b),
{
    let letter = ('a' as u8 <= b && b <= 'z' as u8) || ('A' as u8 <= b && b <= 'Z' as u8);
    let digit = '0' as u8 <= b && b <= '9' as u8;
    match c {
        CharClass::Space => b == ' ' as u8 || b == '\t' as u8 || b == '\n' as u8 || b
            == '\r' as u8,
        CharClass::IdentStart => letter || b == '_' as u8,
        CharClass::IdentChar => letter || digit || b == '_' as u8,
        CharClass::Digit => digit,
        CharClass::HexDigit => digit || ('a' as u8 <= b && b <= 'f' as u8) || ('A' as u8 <= b
            && b <= 'F' as u8),
        CharClass::BinDigit => b == '0' as u8 || b == '1' as u8,
        CharClass::OctDigit => '0' as u8 <= b && b <= '7' as u8,
        CharClass::Continuation => 0x80 <= b && b <= 0xbf,
    }
}

/// The byte at `k`, or 0 past either end.
pub open spec fn byte_at(s: Seq<u8>, k: int) -> u8 {
    if 0 <= k < s.len() {
        s[k]
    } else {
        0
    }
}

fn byte_after(src: &[u8], k: usize, d: usize) -> (r: u8)
    requires
        k <= src.len(),
    ensures
        r == byte_at(src@, k + d),
{
    if d < src.len() - k {
        src[k + d]
    } else {
        0
    }
}

/// The end of the run of bytes of class `c` that starts at `i`.
pub open spec fn run_end(s: Seq<u8>, i: int, c: CharClass) -> int
    decreases s.len() - i,
{
    if 0 <= i < s.len() && in_class(c, s[i]) {
        run_end(s, i + 1, c)
    } else {
        i
    }
}

/// The position of the first line feed at or after `i`, or the end.
pub open spec fn line_end(s: Seq<u8>, i: int) -> int
    decreases s.len() - i,
{
    if 0 <= i < s.len() && s[i] != '\n' as u8 {
        line_end(s, i + 1)
    } else {
        i
    }
}

/// The position of the first `*/` at or after `i`.
pub open spec fn comment_close(s: Seq<u8>, i: int) -> Option<int>
    decreases s.len() - i,
{
    if i < 0 || i + 1 >= s.len() {
        None
    } else if s[i] == '*' as u8 && s[i + 1] == '/' as u8 {
        Some(i)
    } else {
        comment_close(s, i + 1)
    }
}

/// The position of the quote that closes a string whose text starts at
/// `i`; a backslash escapes the byte after it.
pub open spec fn string_close(s: Seq<u8>, i: int) -> Option<int>
    decreases s.len() - i,
{
    if i < 0 || i >= s.len() {
        None
    } else if s[i] == '"' as u8 {
        Some(i)
    } else if s[i] == '\\' as u8 {
        if i + 1 < s.len() {
            string_close(s, i + 2)
        } else {
            None
        }
    } else {
        string_close(s, i + 1)
    }
}

pub proof fn lemma_run_end(s: Seq<u8>, i: int, c: CharClass)
    requires
        0 <= i <= s.len(),
    ensures
        i <= run_end(s, i, c) <= s.len(),
        i < s.len() && in_class(c, s[i]) ==> run_end(s, i, c) > i,
    decreases s.len() - i,
{
    if i < s.len() && in_class(c, s[i]) {
        lemma_run_end(s, i + 1, c);
    }
}

pub proof fn lemma_line_end(s: Seq<u8>, i: int)
    requires
        0 <= i <= s.len(),
    ensures
        i <= line_end(s, i) <= s.len(),
    decreases s.len() - i,
{
    if i < s.len() && s[i] != '\n' as u8 {
        lemma_line_end(s, i + 1);
    }
}

proof fn lemma_comment_close(s: Seq<u8>, i: int)
    requires
        0 <= i,
    ensures
        comment_close(s, i) matches Some(k) ==> i <= k && k + 2 <= s.len(),
    decreases s.len() - i,
{
    if !(i + 1 >= s.len()) && !(s[i] == '*' as u8 && s[i + 1] == '/' as u8) {
        lemma_comment_close(s, i + 1);
    }
}

proof fn lemma_string_close(s: Seq<u8>, i: int)
    requires
        0 <= i,
    ensures
        string_close(s, i) matches Some(k) ==> i <= k < s.len(),
    decreases s.len() - i,
{
    if i < s.len() && s[i] != '"' as u8 {
        if s[i] == '\\' as u8 {
            if i + 1 < s.len() {
                lemma_string_close(s, i + 2);
            }
        } else {
            lemma_string_close(s, i + 1);
        }
    }
}

fn scan_run(src: &[u8], i: usize, c: CharClass) -> (e: usize)
    requires
        i <= src.len(),
    ensures
        e == run_end(src@, i as int, c),
{
    let mut k = i;
    while k < src.len() && is_in_class(c, src[k])
        invariant
            i <= k <= src.len(),
            run_end(src@, k as int, c) == run_end(src@, i as int, c),
        decreases src.len() - k,
    {
        k += 1;
    }
    k
}

fn scan_line(src: &[u8], i: usize) -> (e: usize)
    requires
        i <= src.len(),
    ensures
        e == line_end(src@, i as int),
{
    let mut k = i;
    while k < src.len() && src[k] != '\n' as u8
        invariant
            i <= k <= src.len(),
            line_end(src@, k as int) == line_end(src@, i as int),
        decreases src.len() - k,
    {
        k += 1;
    }
    k
}

fn scan_comment(src: &[u8], i: usize) -> (r: Option<usize>)
    requires
        i <= src.len(),
    ensures
        r matches Some(k) ==> comment_close(src@, i as int) == Some(k as int),
        r is None ==> comment_close(src@, i as int) is None,
{
    let mut k = i;
    while src.len() > 0 && k < src.len() - 1
        invariant
            i <= k <= src.len(),
            comment_close(src@, k as int) == comment_close(src@, i as int),
        decreases src.len() - k,
    {
        if src[k] == '*' as u8 && src[k + 1] == '/' as u8 {
            return Some(k);
        }
        k += 1;
    }
    None
}

fn scan_string(src: &[u8], i: usize) -> (r: Option<usize>)
    requires
        i <= src.len(),
    ensures
        r matches Some(k) ==> string_close(src@, i as int) == Some(k as int),
        r is None ==> string_close(src@, i as int) is None,
{
    let mut k = i;
    while k < src.len()
        invariant
            i <= k <= src.len() + 1,
            string_close(src@, k as int) == string_close(src@, i as int),
        decreases src.len() + 1 - k,
    {
        if src[k] == '"' as u8 {
            return Some(k);
        } else if src[k] == '\\' as u8 {
            if k + 1 < src.len() {
                k += 2;
            } else {
                return None;
            }
        } else {
            k += 1;
        }
    }
    None
}

pub fn eq_word(src: &[u8], s: usize, e: usize, w: &[u8]) -> (r: bool)
    requires
        s <= e <= src.len(),
    ensures
        r == (src@.subrange(s as int, e as int) == w@),
{
    if e - s != w.len() {
        assert(src@.subrange(s as int, e as int).len() != w@.len());
        return false;
    }
    let mut k: usize = 0;
    while k < w.len()
        invariant
            e - s == w.len(),
            s <= e <= src.len(),
            k <= w.len(),
            forall|j: int| 0 <= j < k ==> src@[s + j] == w@[j],
        decreases w.len() - k,
    {
        if src[s + k] != w[k] {
            assert(src@.subrange(s as int, e as int)[k as int] != w@[k as int]);
            return false;
        }
        k += 1;
    }
    assert(src@.subrange(s as int, e as int) =~= w@);
    true
}

/// The keyword spelled by `t`, if any.
pub open spec fn spec_keyword(t: Seq<u8>) -> Option<Token> {
    if t == seq!['c' as u8, 'o' as u8, 's' as u8, 't' as u8, 'u' as u8, 'm' as u8, 'e' as u8, 's' as u8] {
        Some(Token::Costumes)
    } else if t == seq!['s' as u8, 'o' as u8, 'u' as u8, 'n' as u8, 'd' as u8, 's' as u8] {
        Some(Token::Sounds)
    } else if t == seq!['v' as u8, 'a' as u8, 'r' as u8] {
        Some(Token::Var)
    } else if t == seq!['l' as u8, 'i' as u8, 's' as u8, 't' as u8] {
        Some(Token::List)
    } else if t == seq!['l' as u8, 'e' as u8, 't' as u8] {
        Some(Token::Let)
    } else if t == seq!['s' as u8, 't' as u8, 'r' as u8, 'u' as u8, 'c' as u8, 't' as u8] {
        Some(Token::Struct)
    } else if t == seq!['e' as u8, 'n' as u8, 'u' as u8, 'm' as u8] {
        Some(Token::Enum)
    } else if t == seq!['f' as u8, 'u' as u8, 'n' as u8, 'c' as u8, 't' as u8, 'i' as u8, 'o' as u8, 'n' as u8] {
        Some(Token::Function)
    } else if t == seq!['n' as u8, 'o' as u8, 'w' as u8, 'a' as u8, 'r' as u8, 'p' as u8] {
        Some(Token::Nowarp)
    } else if t == seq!['r' as u8, 'e' as u8, 't' as u8, 'u' as u8, 'r' as u8, 'n' as u8] {
        Some(Token::Return)
    } else if t == seq!['o' as u8, 'n' as u8, 'f' as u8, 'l' as u8, 'a' as u8, 'g' as u8] {
        Some(Token::OnFlag)
    } else if t == seq!['o' as u8, 'n' as u8, 'c' as u8, 'l' as u8, 'i' as u8, 'c' as u8, 'k' as u8] {
        Some(Token::OnClick)
    } else if t == seq!['o' as u8, 'n' as u8, 'c' as u8, 'l' as u8, 'o' as u8, 'n' as u8, 'e' as u8] {
        Some(Token::OnClone)
    } else if t == seq!['o' as u8, 'n' as u8, 'k' as u8, 'e' as u8, 'y' as u8] {
        Some(Token::OnKey)
    } else if t == seq!['o' as u8, 'n' as u8] {
        Some(Token::On)
    } else if t == seq!['o' as u8, 'n' as u8, 'b' as u8, 'a' as u8, 'c' as u8, 'k' as u8, 'd' as u8, 'r' as u8, 'o' as u8, 'p' as u8] {
        Some(Token::OnBackdrop)
    } else if t == seq!['i' as u8, 'f' as u8] {
        Some(Token::If)
    } else if t == seq!['e' as u8, 'l' as u8, 's' as u8, 'e' as u8] {
        Some(Token::Else)
    } else if t == seq!['w' as u8, 'h' as u8, 'i' as u8, 'l' as u8, 'e' as u8] {
        Some(Token::While)
    } else if t == seq!['r' as u8, 'e' as u8, 'p' as u8, 'e' as u8, 'a' as u8, 't' as u8] {
        Some(Token::Repeat)
    } else if t == seq!['f' as u8, 'o' as u8, 'r' as u8, 'e' as u8, 'v' as u8, 'e' as u8, 'r' as u8] {
        Some(Token::Forever)
    } else if t == seq!['d' as u8, 'e' as u8, 'l' as u8, 'e' as u8, 't' as u8, 'e' as u8] {
        Some(Token::Delete)
    } else if t == seq!['i' as u8, 'n' as u8, 's' as u8, 'e' as u8, 'r' as u8, 't' as u8] {
        Some(Token::Insert)
    } else if t == seq!['a' as u8, 't' as u8] {
        Some(Token::At)
    } else if t == seq!['t' as u8, 'o' as u8] {
        Some(Token::To)
    } else if t == seq!['s' as u8, 'h' as u8, 'o' as u8, 'w' as u8] {
        Some(Token::Show)
    } else if t == seq!['h' as u8, 'i' as u8, 'd' as u8, 'e' as u8] {
        Some(Token::Hide)
    } else if t == seq!['t' as u8, 'r' as u8, 'u' as u8, 'e' as u8] {
        Some(Token::True)
    } else if t == seq!['f' as u8, 'a' as u8, 'l' as u8, 's' as u8, 'e' as u8] {
        Some(Token::False)
    } else if t == seq!['d' as u8, 'i' as u8, 'v' as u8] {
        Some(Token::Div)
    } else if t == seq!['i' as u8, 'n' as u8] {
        Some(Token::In)
    } else if t == seq!['r' as u8, 'o' as u8, 'u' as u8, 'n' as u8, 'd' as u8] {
        Some(Token::Round)
    } else if t == seq!['a' as u8, 'b' as u8, 's' as u8] {
        Some(Token::Abs)
    } else if t == seq!['f' as u8, 'l' as u8, 'o' as u8, 'o' as u8, 'r' as u8] {
        Some(Token::Floor)
    } else if t == seq!['c' as u8, 'e' as u8, 'i' as u8, 'l' as u8] {
        Some(Token::Ceil)
    } else if t == seq!['s' as u8, 'q' as u8, 'r' as u8, 't' as u8] {
        Some(Token::Sqrt)
    } else if t == seq!['s' as u8, 'i' as u8, 'n' as u8] {
        Some(Token::Sin)
    } else if t == seq!['c' as u8, 'o' as u8, 's' as u8] {
        Some(Token::Cos)
    } else if t == seq!['t' as u8, 'a' as u8, 'n' as u8] {
        Some(Token::Tan)
    } else if t == seq!['a' as u8, 's' as u8, 'i' as u8, 'n' as u8] {
        Some(Token::Asin)
    } else if t == seq!['a' as u8, 'c' as u8, 'o' as u8, 's' as u8] {
        Some(Token::Acos)
    } else if t == seq!['a' as u8, 't' as u8, 'a' as u8, 'n' as u8] {
        Some(Token::Atan)
    } else if t == seq!['l' as u8, 'n' as u8] {
        Some(Token::Ln)
    } else if t == seq!['l' as u8, 'o' as u8, 'g' as u8] {
        Some(Token::Log)
    } else if t == seq!['a' as u8, 'n' as u8, 't' as u8, 'i' as u8, 'l' as u8, 'n' as u8] {
        Some(Token::Antiln)
    } else if t == seq!['a' as u8, 'n' as u8, 't' as u8, 'i' as u8, 'l' as u8, 'o' as u8, 'g' as u8] {
        Some(Token::Antilog)
    } else if t == seq!['l' as u8, 'e' as u8, 'n' as u8, 'g' as u8, 't' as u8, 'h' as u8] {
        Some(Token::Length)
    } else {
        None
    }
}

fn keyword(src: &[u8], s: usize, e: usize) -> (r: Option<Token>)
    requires
        s <= e <= src.len(),
    ensures
        r == spec_keyword(src@.subrange(s as int, e as int)),
{
    if eq_word(src, s, e, &['c' as u8, 'o' as u8, 's' as u8, 't' as u8, 'u' as u8, 'm' as u8, 'e' as u8, 's' as u8]) {
        Some(Token::Costumes)
    } else if eq_word(src, s, e, &['s' as u8, 'o' as u8, 'u' as u8, 'n' as u8, 'd' as u8, 's' as u8]) {
        Some(Token::Sounds)
    } else if eq_word(src, s, e, &['v' as u8, 'a' as u8, 'r' as u8]) {
        Some(Token::Var)
    } else if eq_word(src, s, e, &['l' as u8, 'i' as u8, 's' as u8, 't' as u8]) {
        Some(Token::List)
    } else if eq_word(src, s, e, &['l' as u8, 'e' as u8, 't' as u8]) {
        Some(Token::Let)
    } else if eq_word(src, s, e, &['s' as u8, 't' as u8, 'r' as u8, 'u' as u8, 'c' as u8, 't' as u8]) {
        Some(Token::Struct)
    } else if eq_word(src, s, e, &['e' as u8, 'n' as u8, 'u' as u8, 'm' as u8]) {
        Some(Token::Enum)
    } else if eq_word(src, s, e, &['f' as u8, 'u' as u8, 'n' as u8, 'c' as u8, 't' as u8, 'i' as u8, 'o' as u8, 'n' as u8]) {
        Some(Token::Function)
    } else if eq_word(src, s, e, &['n' as u8, 'o' as u8, 'w' as u8, 'a' as u8, 'r' as u8, 'p' as u8]) {
        Some(Token::Nowarp)
    } else if eq_word(src, s, e, &['r' as u8, 'e' as u8, 't' as u8, 'u' as u8, 'r' as u8, 'n' as u8]) {
        Some(Token::Return)
    } else if eq_word(src, s, e, &['o' as u8, 'n' as u8, 'f' as u8, 'l' as u8, 'a' as u8, 'g' as u8]) {
        Some(Token::OnFlag)
    } else if eq_word(src, s, e, &['o' as u8, 'n' as u8, 'c' as u8, 'l' as u8, 'i' as u8, 'c' as u8, 'k' as u8]) {
        Some(Token::OnClick)
    } else if eq_word(src, s, e, &['o' as u8, 'n' as u8, 'c' as u8, 'l' as u8, 'o' as u8, 'n' as u8, 'e' as u8]) {
        Some(Token::OnClone)
    } else if eq_word(src, s, e, &['o' as u8, 'n' as u8, 'k' as u8, 'e' as u8, 'y' as u8]) {
        Some(Token::OnKey)
    } else if eq_word(src, s, e, &['o' as u8, 'n' as u8]) {
        Some(Token::On)
    } else if eq_word(src, s, e, &['o' as u8, 'n' as u8, 'b' as u8, 'a' as u8, 'c' as u8, 'k' as u8, 'd' as u8, 'r' as u8, 'o' as u8, 'p' as u8]) {
        Some(Token::OnBackdrop)
    } else if eq_word(src, s, e, &['i' as u8, 'f' as u8]) {
        Some(Token::If)
    } else if eq_word(src, s, e, &['e' as u8, 'l' as u8, 's' as u8, 'e' as u8]) {
        Some(Token::Else)
    } else if eq_word(src, s, e, &['w' as u8, 'h' as u8, 'i' as u8, 'l' as u8, 'e' as u8]) {
        Some(Token::While)
    } else if eq_word(src, s, e, &['r' as u8, 'e' as u8, 'p' as u8, 'e' as u8, 'a' as u8, 't' as u8]) {
        Some(Token::Repeat)
    } else if eq_word(src, s, e, &['f' as u8, 'o' as u8, 'r' as u8, 'e' as u8, 'v' as u8, 'e' as u8, 'r' as u8]) {
        Some(Token::Forever)
    } else if eq_word(src, s, e, &['d' as u8, 'e' as u8, 'l' as u8, 'e' as u8, 't' as u8, 'e' as u8]) {
        Some(Token::Delete)
    } else if eq_word(src, s, e, &['i' as u8, 'n' as u8, 's' as u8, 'e' as u8, 'r' as u8, 't' as u8]) {
        Some(Token::Insert)
    } else if eq_word(src, s, e, &['a' as u8, 't' as u8]) {
        Some(Token::At)
    } else if eq_word(src, s, e, &['t' as u8, 'o' as u8]) {
        Some(Token::To)
    } else if eq_word(src, s, e, &['s' as u8, 'h' as u8, 'o' as u8, 'w' as u8]) {
        Some(Token::Show)
    } else if eq_word(src, s, e, &['h' as u8, 'i' as u8, 'd' as u8, 'e' as u8]) {
        Some(Token::Hide)
    } else if eq_word(src, s, e, &['t' as u8, 'r' as u8, 'u' as u8, 'e' as u8]) {
        Some(Token::True)
    } else if eq_word(src, s, e, &['f' as u8, 'a' as u8, 'l' as u8, 's' as u8, 'e' as u8]) {
        Some(Token::False)
    } else if eq_word(src, s, e, &['d' as u8, 'i' as u8, 'v' as u8]) {
        Some(Token::Div)
    } else if eq_word(src, s, e, &['i' as u8, 'n' as u8]) {
        Some(Token::In)
    } else if eq_word(src, s, e, &['r' as u8, 'o' as u8, 'u' as u8, 'n' as u8, 'd' as u8]) {
        Some(Token::Round)
    } else if eq_word(src, s, e, &['a' as u8, 'b' as u8, 's' as u8]) {
        Some(Token::Abs)
    } else if eq_word(src, s, e, &['f' as u8, 'l' as u8, 'o' as u8, 'o' as u8, 'r' as u8]) {
        Some(Token::Floor)
    } else if eq_word(src, s, e, &['c' as u8, 'e' as u8, 'i' as u8, 'l' as u8]) {
        Some(Token::Ceil)
    } else if eq_word(src, s, e, &['s' as u8, 'q' as u8, 'r' as u8, 't' as u8]) {
        Some(Token::Sqrt)
    } else if eq_word(src, s, e, &['s' as u8, 'i' as u8, 'n' as u8]) {
        Some(Token::Sin)
    } else if eq_word(src, s, e, &['c' as u8, 'o' as u8, 's' as u8]) {
        Some(Token::Cos)
    } else if eq_word(src, s, e, &['t' as u8, 'a' as u8, 'n' as u8]) {
        Some(Token::Tan)
    } else if eq_word(src, s, e, &['a' as u8, 's' as u8, 'i' as u8, 'n' as u8]) {
        Some(Token::Asin)
    } else if eq_word(src, s, e, &['a' as u8, 'c' as u8, 'o' as u8, 's' as u8]) {
        Some(Token::Acos)
    } else if eq_word(src, s, e, &['a' as u8, 't' as u8, 'a' as u8, 'n' as u8]) {
        Some(Token::Atan)
    } else if eq_word(src, s, e, &['l' as u8, 'n' as u8]) {
        Some(Token::Ln)
    } else if eq_word(src, s, e, &['l' as u8, 'o' as u8, 'g' as u8]) {
        Some(Token::Log)
    } else if eq_word(src, s, e, &['a' as u8, 'n' as u8, 't' as u8, 'i' as u8, 'l' as u8, 'n' as u8]) {
        Some(Token::Antiln)
    } else if eq_word(src, s, e, &['a' as u8, 'n' as u8, 't' as u8, 'i' as u8, 'l' as u8, 'o' as u8, 'g' as u8]) {
        Some(Token::Antilog)
    } else if eq_word(src, s, e, &['l' as u8, 'e' as u8, 'n' as u8, 'g' as u8, 't' as u8, 'h' as u8]) {
        Some(Token::Length)
    } else {
        None
    }
}

/// The end of the number literal that starts with the digit at `i`.
pub open spec fn number_end(s: Seq<u8>, i: int) -> int {
    let c1 = byte_at(s, i + 1);
    let c2 = byte_at(s, i + 2);
    if s[i] == '0' as u8 && (c1 == 'x' as u8 || c1 == 'X' as u8) && in_class(
        CharClass::HexDigit,
        c2,
    ) {
        run_end(s, i + 2, CharClass::HexDigit)
    } else if s[i] == '0' as u8 && (c1 == 'b' as u8 || c1 == 'B' as u8) && in_class(
        CharClass::BinDigit,
        c2,
    ) {
        run_end(s, i + 2, CharClass::BinDigit)
    } else if s[i] == '0' as u8 && (c1 == 'o' as u8 || c1 == 'O' as u8) && in_class(
        CharClass::OctDigit,
        c2,
    ) {
        run_end(s, i + 2, CharClass::OctDigit)
    } else {
        let e = run_end(s, i, CharClass::Digit);
        if byte_at(s, e) == '.' as u8 && in_class(CharClass::Digit, byte_at(s, e + 1)) {
            run_end(s, e + 1, CharClass::Digit)
        } else {
            e
        }
    }
}

/// The operator or punctuation token that starts with the bytes `c`, `c1`,
/// and its length.
pub open spec fn punct(c: u8, c1: u8) -> Option<(Token, int)> {
    if c == '&' as u8 {
        if c1 == '&' as u8 {
            Some((Token::AmpAmp, 2))
        } else if c1 == '=' as u8 {
            Some((Token::AmpAssign, 2))
        } else {
            Some((Token::Amp, 1))
        }
    } else if c == '|' as u8 {
        if c1 == '|' as u8 {
            Some((Token::PipePipe, 2))
        } else {
            None
        }
    } else if c == '=' as u8 {
        if c1 == '=' as u8 {
            Some((Token::Eq, 2))
        } else {
            Some((Token::Assign, 1))
        }
    } else if c == '!' as u8 {
        if c1 == '=' as u8 {
            Some((Token::Ne, 2))
        } else {
            Some((Token::Bang, 1))
        }
    } else if c == '<' as u8 {
        if c1 == '=' as u8 {
            Some((Token::Le, 2))
        } else {
            Some((Token::Lt, 1))
        }
    } else if c == '>' as u8 {
        if c1 == '=' as u8 {
            Some((Token::Ge, 2))
        } else {
            Some((Token::Gt, 1))
        }
    } else if c == '+' as u8 {
        if c1 == '=' as u8 {
            Some((Token::PlusAssign, 2))
        } else if c1 == '+' as u8 {
            Some((Token::PlusPlus, 2))
        } else {
            Some((Token::Plus, 1))
        }
    } else if c == '-' as u8 {
        if c1 == '=' as u8 {
            Some((Token::MinusAssign, 2))
        } else if c1 == '-' as u8 {
            Some((Token::MinusMinus, 2))
        } else {
            Some((Token::Minus, 1))
        }
    } else if c == '*' as u8 {
        if c1 == '=' as u8 {
            Some((Token::StarAssign, 2))
        } else {
            Some((Token::Star, 1))
        }
    } else if c == '/' as u8 {
        if c1 == '=' as u8 {
            Some((Token::SlashAssign, 2))
        } else {
            Some((Token::Slash, 1))
        }
    } else if c == '%' as u8 {
        if c1 == '=' as u8 {
            Some((Token::PercentAssign, 2))
        } else {
            Some((Token::Percent, 1))
        }
    } else if c == '(' as u8 {
        Some((Token::LParen, 1))
    } else if c == ')' as u8 {
        Some((Token::RParen, 1))
    } else if c == '{' as u8 {
        Some((Token::LBrace, 1))
    } else if c == '}' as u8 {
        Some((Token::RBrace, 1))
    } else if c == '[' as u8 {
        Some((Token::LBracket, 1))
    } else if c == ']' as u8 {
        Some((Token::RBracket, 1))
    } else if c == ',' as u8 {
        Some((Token::Comma, 1))
    } else if c == ';' as u8 {
        Some((Token::Semi, 1))
    } else if c == ':' as u8 {
        Some((Token::Colon, 1))
    } else if c == '.' as u8 {
        Some((Token::Dot, 1))
    } else {
        None
    }
}

fn get_punct(c: u8, c1: u8) -> (r: Option<(Token, usize)>)
    ensures
        r matches Some((t, w)) ==> punct(c, c1) == Some((t, w as int)),
        r is None ==> punct(c, c1) is None,
{
    if c == '&' as u8 {
        if c1 == '&' as u8 {
            Some((Token::AmpAmp, 2))
        } else if c1 == '=' as u8 {
            Some((Token::AmpAssign, 2))
        } else {
            Some((Token::Amp, 1))
        }
    } else if c == '|' as u8 {
        if c1 == '|' as u8 {
            Some((Token::PipePipe, 2))
        } else {
            None
        }
    } else if c == '=' as u8 {
        if c1 == '=' as u8 {
            Some((Token::Eq, 2))
        } else {
            Some((Token::Assign, 1))
        }
    } else if c == '!' as u8 {
        if c1 == '=' as u8 {
            Some((Token::Ne, 2))
        } else {
            Some((Token::Bang, 1))
        }
    } else if c == '<' as u8 {
        if c1 == '=' as u8 {
            Some((Token::Le, 2))
        } else {
            Some((Token::Lt, 1))
        }
    } else if c == '>' as u8 {
        if c1 == '=' as u8 {
            Some((Token::Ge, 2))
        } else {
            Some((Token::Gt, 1))
        }
    } else if c == '+' as u8 {
        if c1 == '=' as u8 {
            Some((Token::PlusAssign, 2))
        } else if c1 == '+' as u8 {
            Some((Token::PlusPlus, 2))
        } else {
            Some((Token::Plus, 1))
        }
    } else if c == '-' as u8 {
        if c1 == '=' as u8 {
            Some((Token::MinusAssign, 2))
        } else if c1 == '-' as u8 {
            Some((Token::MinusMinus, 2))
        } else {
            Some((Token::Minus, 1))
        }
    } else if c == '*' as u8 {
        if c1 == '=' as u8 {
            Some((Token::StarAssign, 2))
        } else {
            Some((Token::Star, 1))
        }
    } else if c == '/' as u8 {
        if c1 == '=' as u8 {
            Some((Token::SlashAssign, 2))
        } else {
            Some((Token::Slash, 1))
        }
    } else if c == '%' as u8 {
        if c1 == '=' as u8 {
            Some((Token::PercentAssign, 2))
        } else {
            Some((Token::Percent, 1))
        }
    } else if c == '(' as u8 {
        Some((Token::LParen, 1))
    } else if c == ')' as u8 {
        Some((Token::RParen, 1))
    } else if c == '{' as u8 {
        Some((Token::LBrace, 1))
    } else if c == '}' as u8 {
        Some((Token::RBrace, 1))
    } else if c == '[' as u8 {
        Some((Token::LBracket, 1))
    } else if c == ']' as u8 {
        Some((Token::RBracket, 1))
    } else if c == ',' as u8 {
        Some((Token::Comma, 1))
    } else if c == ';' as u8 {
        Some((Token::Semi, 1))
    } else if c == ':' as u8 {
        Some((Token::Colon, 1))
    } else if c == '.' as u8 {
        Some((Token::Dot, 1))
    } else {
        None
    }
}

/// What one step of the tokenizer reads.
#[derive(Clone, Copy, Debug, PartialEq, Eq)]
pub enum Lexeme {
    /// White space or a comment.
    Skip,
    Tok(Token),
    Bad(DiagnosticKind),
}

/// The lexeme that starts at `i` (with `0 <= i < s.len()`) and where it
/// ends: the longest token that starts there.
pub open spec fn lex_step(s: Seq<u8>, i: int) -> (Lexeme, int) {
    let c = s[i];
    let c1 = byte_at(s, i + 1);
    let is_directive = c == '%' as u8 && in_class(CharClass::IdentStart, c1);
    let word_end = run_end(s, i + 1, CharClass::IdentChar);
    let word = s.subrange(i + 1, word_end);
    if in_class(CharClass::Space, c) {
        (Lexeme::Skip, run_end(s, i, CharClass::Space))
    } else if c == '/' as u8 && c1 == '/' as u8 {
        (Lexeme::Skip, line_end(s, i + 2))
    } else if c == '/' as u8 && c1 == '*' as u8 {
        match comment_close(s, i + 2) {
            Some(k) => (Lexeme::Skip, k + 2),
            None => (Lexeme::Bad(DiagnosticKind::UnterminatedComment), s.len() as int),
        }
    } else if c == '"' as u8 {
        match string_close(s, i + 1) {
            Some(k) => (Lexeme::Tok(Token::Str), k + 1),
            None => (Lexeme::Bad(DiagnosticKind::UnterminatedString), s.len() as int),
        }
    } else if in_class(CharClass::Digit, c) {
        (Lexeme::Tok(Token::Number), number_end(s, i))
    } else if in_class(CharClass::IdentStart, c) {
        let e = run_end(s, i, CharClass::IdentChar);
        match spec_keyword(s.subrange(i, e)) {
            Some(Token::Div) => if byte_at(s, e) == '=' as u8 && byte_at(s, e + 1) != '=' as u8 {
                (Lexeme::Tok(Token::DivAssign), e + 1)
            } else {
                (Lexeme::Tok(Token::Div), e)
            },
            Some(t) => (Lexeme::Tok(t), e),
            None => (Lexeme::Tok(Token::Name), e),
        }
    } else if c == '$' as u8 && in_class(CharClass::IdentStart, c1) {
        (Lexeme::Tok(Token::Arg), word_end)
    } else if is_directive && word == seq![
        'd' as u8,
        'e' as u8,
        'f' as u8,
        'i' as u8,
        'n' as u8,
        'e' as u8,
    ] {
        (Lexeme::Tok(Token::Define), word_end)
    } else if is_directive && word == seq!['u' as u8, 'n' as u8, 'd' as u8, 'e' as u8, 'f' as u8] {
        (Lexeme::Tok(Token::Undef), word_end)
    } else {
        match punct(c, c1) {
            Some((t, w)) => (Lexeme::Tok(t), i + w),
            None => (
                Lexeme::Bad(DiagnosticKind::InvalidToken),
                run_end(s, i + 1, CharClass::Continuation),
            ),
        }
    }
}

/// A step always moves forward and stays inside the source.
pub proof fn lemma_lex_step(s: Seq<u8>, i: int)
    requires
        0 <= i < s.len(),
    ensures
        i < lex_step(s, i).1 <= s.len(),
{
    let c = s[i];
    lemma_run_end(s, i, CharClass::Space);
    lemma_run_end(s, i, CharClass::IdentChar);
    lemma_run_end(s, i + 1, CharClass::IdentChar);
    lemma_run_end(s, i + 1, CharClass::Continuation);
    if i + 2 <= s.len() {
        lemma_line_end(s, i + 2);
    }
    lemma_comment_close(s, i + 2);
    lemma_string_close(s, i + 1);
    if in_class(CharClass::Digit, c) {
        let c1 = byte_at(s, i + 1);
        let c2 = byte_at(s, i + 2);
        if i + 2 < s.len() {
            lemma_run_end(s, i + 2, CharClass::HexDigit);
            lemma_run_end(s, i + 2, CharClass::BinDigit);
            lemma_run_end(s, i + 2, CharClass::OctDigit);
        }
        lemma_run_end(s, i, CharClass::Digit);
        let e = run_end(s, i, CharClass::Digit);
        if byte_at(s, e) == '.' as u8 && in_class(CharClass::Digit, byte_at(s, e + 1)) {
            lemma_run_end(s, e + 1, CharClass::Digit);
        }
    }
}

fn step(src: &[u8], i: usize) -> (r: (Lexeme, usize))
    requires
        i < src.len(),
    ensures
        r.0 == lex_step(src@, i as int).0,
        r.1 == lex_step(src@, i as int).1,
{
    proof {
        lemma_lex_step(src@, i as int);
    }
    let c = src[i];
    let c1 = byte_after(src, i, 1);
    if is_in_class(CharClass::Space, c) {
        (Lexeme::Skip, scan_run(src, i, CharClass::Space))
    } else if c == '/' as u8 && c1 == '/' as u8 {
        (Lexeme::Skip, scan_line(src, i + 2))
    } else if c == '/' as u8 && c1 == '*' as u8 {
        match scan_comment(src, i + 2) {
            Some(k) => (Lexeme::Skip, k + 2),
            None => (Lexeme::Bad(DiagnosticKind::UnterminatedComment), src.len()),
        }
    } else if c == '"' as u8 {
        match scan_string(src, i + 1) {
            Some(k) => (Lexeme::Tok(Token::Str), k + 1),
            None => (Lexeme::Bad(DiagnosticKind::UnterminatedString), src.len()),
        }
    } else if is_in_class(CharClass::Digit, c) {
        (Lexeme::Tok(Token::Number), scan_number(src, i))
    } else if is_in_class(CharClass::IdentStart, c) {
        let e = scan_run(src, i, CharClass::IdentChar);
        match keyword(src, i, e) {
            Some(Token::Div) => if byte_after(src, e, 0) == '=' as u8 && byte_after(src, e, 1) != '='
                as u8 {
                (Lexeme::Tok(Token::DivAssign), e + 1)
            } else {
                (Lexeme::Tok(Token::Div), e)
            },
            Some(t) => (Lexeme::Tok(t), e),
            None => (Lexeme::Tok(Token::Name), e),
        }
    } else if c == '$' as u8 && is_in_class(CharClass::IdentStart, c1) {
        (Lexeme::Tok(Token::Arg), scan_run(src, i + 1, CharClass::IdentChar))
    } else {
        let is_directive = c == '%' as u8 && is_in_class(CharClass::IdentStart, c1);
        let word_end = scan_run(src, i + 1, CharClass::IdentChar);
        proof {
            lemma_run_end(src@, i + 1, CharClass::IdentChar);
        }
        if is_directive && eq_word(
            src,
            i + 1,
            word_end,
            &['d' as u8, 'e' as u8, 'f' as u8, 'i' as u8, 'n' as u8, 'e' as u8],
        ) {
            (Lexeme::Tok(Token::Define), word_end)
        } else if is_directive && eq_word(
            src,
            i + 1,
            word_end,
            &['u' as u8, 'n' as u8, 'd' as u8, 'e' as u8, 'f' as u8],
        ) {
            (Lexeme::Tok(Token::Undef), word_end)
        } else {
            match get_punct(c, c1) {
                Some((t, w)) => (Lexeme::Tok(t), i + w),
                None => (
                    Lexeme::Bad(DiagnosticKind::InvalidToken),
                    scan_run(src, i + 1, CharClass::Continuation),
                ),
            }
        }
    }
}

fn scan_number(src: &[u8], i: usize) -> (e: usize)
    requires
        i < src.len(),
    ensures
        e == number_end(src@, i as int),
{
    let c1 = byte_after(src, i, 1);
    let c2 = byte_after(src, i, 2);
    if src[i] == '0' as u8 && (c1 == 'x' as u8 || c1 == 'X' as u8) && is_in_class(
        CharClass::HexDigit,
        c2,
    ) {
        scan_run(src, i + 2, CharClass::HexDigit)
    } else if src[i] == '0' as u8 && (c1 == 'b' as u8 || c1 == 'B' as u8) && is_in_class(
        CharClass::BinDigit,
        c2,
    ) {
        scan_run(src, i + 2, CharClass::BinDigit)
    } else if src[i] == '0' as u8 && (c1 == 'o' as u8 || c1 == 'O' as u8) && is_in_class(
        CharClass::OctDigit,
        c2,
    ) {
        scan_run(src, i + 2, CharClass::OctDigit)
    } else {
        let e = scan_run(src, i, CharClass::Digit);
        proof {
            lemma_run_end(src@, i as int, CharClass::Digit);
        }
        if byte_after(src, e, 0) == '.' as u8 && is_in_class(CharClass::Digit, byte_after(src, e, 1)) {
            scan_run(src, e + 1, CharClass::Digit)
        } else {
            e
        }
    }
}

/// The tokens and the diagnostics of the part of the source from `i` on.
pub open spec fn lex_from(s: Seq<u8>, i: int) -> (Seq<SpannedToken>, Seq<Diagnostic>)
    decreases s.len() - i,
{
    if i < 0 || i >= s.len() {
        (Seq::empty(), Seq::empty())
    } else {
        let (lx, j) = lex_step(s, i);
        if j <= i || j > s.len() {
            (Seq::empty(), Seq::empty())
        } else {
            let (ts, ds) = lex_from(s, j);
            match lx {
                Lexeme::Skip => (ts, ds),
                Lexeme::Tok(t) => (seq![(i as usize, t, j as usize)] + ts, ds),
                Lexeme::Bad(k) => (
                    ts,
                    seq![Diagnostic { kind: k, span: Span { start: i as usize, end: j as usize } }]
                        + ds,
                ),
            }
        }
    }
}

/// The tokens and diagnostics of a whole source.
pub open spec fn spec_lex(s: Seq<u8>) -> (Seq<SpannedToken>, Seq<Diagnostic>) {
    lex_from(s, 0)
}

/// Reads all tokens of `src`, in order; each byte range that starts no token
/// is reported by a diagnostic, and reading goes on after it.
pub fn lex(src: &[u8]) -> (r: (Vec<SpannedToken>, Vec<Diagnostic>))
    ensures
        r.0@ == spec_lex(src@).0,
        r.1@ == spec_lex(src@).1,
{
    let mut tokens: Vec<SpannedToken> = Vec::new();
    let mut diagnostics: Vec<Diagnostic> = Vec::new();
    let mut i: usize = 0;
    while i < src.len()
        invariant
            i <= src.len(),
            spec_lex(src@).0 == tokens@ + lex_from(src@, i as int).0,
            spec_lex(src@).1 == diagnostics@ + lex_from(src@, i as int).1,
        decreases src.len() - i,
    {
        let (lx, j) = step(src, i);
        proof {
            lemma_lex_step(src@, i as int);
        }
        let ghost rest = lex_from(src@, j as int);
        let ghost old_tokens = tokens@;
        let ghost old_diagnostics = diagnostics@;
        match lx {
            Lexeme::Skip => {},
            Lexeme::Tok(t) => {
                tokens.push((i, t, j));
                assert(old_tokens + (seq![(i, t, j)] + rest.0) =~= tokens@ + rest.0);
            },
            Lexeme::Bad(k) => {
                let d = Diagnostic { kind: k, span: Span { start: i, end: j } };
                diagnostics.push(d);
                assert(old_diagnostics + (seq![d] + rest.1) =~= diagnostics@ + rest.1);
            },
        }
        i = j;
    }
    assert(tokens@ + lex_from(src@, i as int).0 =~= tokens@);
    assert(diagnostics@ + lex_from(src@, i as int).1 =~= diagnostics@);
    (tokens, diagnostics)
}


/// Every token lies in `lo..hi`, is not empty, and ends before the next
/// one starts.
pub open spec fn tokens_ordered(ts: Seq<SpannedToken>, lo: int, hi: int) -> bool {
    &&& forall|k: int| 0 <= k < ts.len() ==> lo <= (#[trigger] ts[k]).0 < ts[k].2 <= hi
    &&& forall|a: int, b: int| 0 <= a < b < ts.len() ==> (#[trigger] ts[a]).2 <= (#[trigger] ts[b]).0
}

/// The same for the spans of diagnostics.
pub open spec fn diagnostics_ordered(ds: Seq<Diagnostic>, lo: int, hi: int) -> bool {
    &&& forall|k: int|
        0 <= k < ds.len() ==> lo <= (#[trigger] ds[k]).span.start < ds[k].span.end <= hi
    &&& forall|a: int, b: int|
        0 <= a < b < ds.len() ==> (#[trigger] ds[a]).span.end <= (#[trigger] ds[b]).span.start
}

pub proof fn lemma_lex_from_ordered(s: Seq<u8>, i: int)
    requires
        0 <= i <= s.len(),
        s.len() <= usize::MAX,
    ensures
        tokens_ordered(lex_from(s, i).0, i, s.len() as int),
        diagnostics_ordered(lex_from(s, i).1, i, s.len() as int),
    decreases s.len() - i,
{
    if i < s.len() {
        lemma_lex_step(s, i);
        let (lx, j) = lex_step(s, i);
        lemma_lex_from_ordered(s, j);
        let (ts, ds) = lex_from(s, j);
        match lx {
            Lexeme::Skip => {},
            Lexeme::Tok(t) => {
                let ts2 = seq![(i as usize, t, j as usize)] + ts;
                assert forall|k: int| 0 <= k < ts2.len() implies i <= (#[trigger] ts2[k]).0
                    < ts2[k].2 <= s.len() by {
                    if k > 0 {
                        assert(ts2[k] == ts[k - 1]);
                    }
                }
                assert forall|a: int, b: int| 0 <= a < b < ts2.len() implies (
                #[trigger] ts2[a]).2 <= (#[trigger] ts2[b]).0 by {
                    assert(ts2[b] == ts[b - 1]);
                    if a > 0 {
                        assert(ts2[a] == ts[a - 1]);
                    }
                }
            },
            Lexeme::Bad(kind) => {
                let d = Diagnostic { kind, span: Span { start: i as usize, end: j as usize } };
                let ds2 = seq![d] + ds;
                assert forall|k: int| 0 <= k < ds2.len() implies i <= (
                #[trigger] ds2[k]).span.start < ds2[k].span.end <= s.len() by {
                    if k > 0 {
                        assert(ds2[k] == ds[k - 1]);
                    }
                }
                assert forall|a: int, b: int| 0 <= a < b < ds2.len() implies (
                #[trigger] ds2[a]).span.end <= (#[trigger] ds2[b]).span.start by {
                    assert(ds2[b] == ds[b - 1]);
                    if a > 0 {
                        assert(ds2[a] == ds[a - 1]);
                    }
                }
            },
        }
    }
}

/// The tokens of a source, and the spans of its diagnostics, are inside the
/// source, not empty, and in the order of the source without overlapping.
pub proof fn lemma_lex_ordered(s: Seq<u8>)
    requires
        s.len() <= usize::MAX,
    ensures
        tokens_ordered(spec_lex(s).0, 0, s.len() as int),
        diagnostics_ordered(spec_lex(s).1, 0, s.len() as int),
{
    lemma_lex_from_ordered(s, 0);
}


/// The byte that the escape `\b` stands for.
pub open spec fn escaped(b: u8) -> u8 {
    if b == 'n' as u8 {
        10
    } else if b == 't' as u8 {
        9
    } else if b == 'r' as u8 {
        13
    } else {
        b
    }
}

/// The bytes of `t` from `i` on with each escape `\b` replaced by the byte
/// it stands for.
pub open spec fn unescape_from(t: Seq<u8>, i: int) -> Seq<u8>
    decreases t.len() - i,
{
    if i < 0 || i >= t.len() {
        Seq::empty()
    } else if t[i] == '\\' as u8 && i + 1 < t.len() {
        seq![escaped(t[i + 1])] + unescape_from(t, i + 2)
    } else {
        seq![t[i]] + unescape_from(t, i + 1)
    }
}

/// The value of the string literal at `span`, quotes included.
pub open spec fn spec_string_value(src: Seq<u8>, span: Span) -> Seq<u8> {
    unescape_from(src.subrange(span.start + 1, span.end - 1), 0)
}

/// The value of a string literal: the bytes between its quotes, with `\n`,
/// `\t` and `\r` standing for a line feed, a tab and a carriage return, and
/// `\` before any other byte standing for that byte.
pub fn string_value(src: &[u8], span: Span) -> (r: Vec<u8>)
    requires
        span.start + 2 <= span.end <= src.len(),
    ensures
        r@ == spec_string_value(src@, span),
{
    let ghost t = src@.subrange(span.start + 1, span.end - 1);
    let from = span.start + 1;
    let len = span.end - 1 - from;
    let mut out: Vec<u8> = Vec::new();
    let mut i: usize = 0;
    while i < len
        invariant
            from == span.start + 1,
            len == t.len(),
            span.start + 2 <= span.end <= src.len(),
            t == src@.subrange(span.start + 1, span.end - 1),
            i <= len + 1,
            out@ + unescape_from(t, i as int) == unescape_from(t, 0),
        decreases len + 1 - i,
    {
        let ghost before = out@;
        let b = src[from + i];
        assert(b == t[i as int]);
        if b == '\\' as u8 && i + 1 < len {
            let c = src[from + i + 1];
            assert(c == t[i + 1]);
            let e = if c == 'n' as u8 {
                10
            } else if c == 't' as u8 {
                9
            } else if c == 'r' as u8 {
                13
            } else {
                c
            };
            out.push(e);
            assert(before + (seq![escaped(c)] + unescape_from(t, i + 2)) =~= out@ + unescape_from(
                t,
                i + 2,
            ));
            i += 2;
        } else {
            out.push(b);
            assert(before + (seq![b] + unescape_from(t, i + 1)) =~= out@ + unescape_from(
                t,
                i + 1,
            ));
            i += 1;
        }
    }
    assert(out@ + unescape_from(t, i as int) =~= out@);
    out
}

/// A keyword is read from exactly its spelling.
proof fn lemma_keyword_spelled(w: Seq<u8>)
    ensures
        spec_keyword(w) matches Some(t) ==> spelling(t) == Some(w),
{
}

/// An operator or punctuation mark is read from exactly its spelling: its
/// first byte, or its first two.
proof fn lemma_punct_spelled(c: u8, c1: u8)
    ensures
        punct(c, c1) matches Some((t, n)) ==> (n == 1 && spelling(t) == Some(seq![c])) || (n == 2
            && spelling(t) == Some(seq![c, c1])),
{
}

/// A token that is always written the same way is read from exactly its
/// spelling.
pub proof fn lemma_lex_step_spelled(s: Seq<u8>, i: int)
    requires
        0 <= i < s.len(),
        lex_step(s, i).1 <= s.len(),
    ensures
        lex_step(s, i).0 matches Lexeme::Tok(t) ==> spelling(t) is Some ==> spelling(t) == Some(
            s.subrange(i, lex_step(s, i).1),
        ),
{
    let c = s[i];
    let c1 = byte_at(s, i + 1);
    let (lx, j) = lex_step(s, i);
    lemma_run_end(s, i, CharClass::IdentChar);
    lemma_run_end(s, i + 1, CharClass::IdentChar);
    let e = run_end(s, i, CharClass::IdentChar);
    let word_end = run_end(s, i + 1, CharClass::IdentChar);
    lemma_keyword_spelled(s.subrange(i, e));
    lemma_punct_spelled(c, c1);
    if let Lexeme::Tok(t) = lx {
        if spelling(t) is Some {
            if in_class(CharClass::IdentStart, c) && !in_class(CharClass::Space, c) && !(c
                == '/' as u8) && !(c == '"' as u8) && !in_class(CharClass::Digit, c) {
                if spec_keyword(s.subrange(i, e)) == Some(Token::Div) && byte_at(s, e) == '=' as u8
                    && byte_at(s, e + 1) != '=' as u8 {
                    assert(s.subrange(i, e + 1) =~= s.subrange(i, e).push('=' as u8));
                }
            } else if c == '%' as u8 && in_class(CharClass::IdentStart, c1) && (t == Token::Define
                || t == Token::Undef) {
                assert(s.subrange(i, word_end) =~= seq![c] + s.subrange(i + 1, word_end));
            } else if let Some((_, n)) = punct(c, c1) {
                if n == 1 {
                    assert(s.subrange(i, j) =~= seq![c]);
                } else {
                    assert(s.subrange(i, j) =~= seq![c, c1]);
                }
            }
        }
    }
}

/// Every token of a source that is always written the same way stands on
/// exactly its spelling: `<=` is read as at most and `>=` as at least, `-`
/// as minus, `div` as floor division, and so on.
pub proof fn lemma_lex_spelled(s: Seq<u8>, i: int)
    requires
        0 <= i <= s.len(),
        s.len() <= usize::MAX,
    ensures
        forall|k: int|
            0 <= k < lex_from(s, i).0.len() && spelling((#[trigger] lex_from(s, i).0[k]).1) is Some
                ==> spelling(lex_from(s, i).0[k].1) == Some(
                s.subrange(lex_from(s, i).0[k].0 as int, lex_from(s, i).0[k].2 as int),
            ),
    decreases s.len() - i,
{
    if i < s.len() {
        let (lx, j) = lex_step(s, i);
        if i < j <= s.len() {
            lemma_lex_spelled(s, j);
            lemma_lex_step_spelled(s, i);
            let ts = lex_from(s, i).0;
            let rest = lex_from(s, j).0;
            assert forall|k: int|
                0 <= k < ts.len() && spelling((#[trigger] ts[k]).1) is Some implies spelling(
                ts[k].1,
            ) == Some(s.subrange(ts[k].0 as int, ts[k].2 as int)) by {
                if let Lexeme::Tok(t) = lx {
                    if k > 0 {
                        assert(ts[k] == rest[k - 1]);
                    } else {
                        assert(ts[0] == (i as usize, t, j as usize));
                        assert((i as usize) as int == i && (j as usize) as int == j);
                    }
                } else {
                    assert(ts[k] == rest[k]);
                }
            }
        }
    }
}

/// Every keyword is read as itself: the word spelled like a keyword
/// token (a spelling that starts and ends like a name) is that token, not a
/// name.
#[verifier::rlimit(100)]
pub proof fn lemma_keywords_read()
    ensures
        forall|t: Token|
            #[trigger] spelling(t) is Some && spelling(t)->0.len() > 0 && in_class(
                CharClass::IdentStart,
                spelling(t)->0[0],
            ) && in_class(CharClass::IdentChar, spelling(t)->0.last()) ==> spec_keyword(
                spelling(t)->0,
            ) == Some(t),
{
    assert(spec_keyword(seq!['c' as u8, 'o' as u8, 's' as u8, 't' as u8, 'u' as u8, 'm' as u8, 'e' as u8, 's' as u8]) == Some(Token::Costumes)) by {
        let w = seq!['c' as u8, 'o' as u8, 's' as u8, 't' as u8, 'u' as u8, 'm' as u8, 'e' as u8, 's' as u8];
        assert(w.len() == 8);
    }
    assert(spec_keyword(seq!['s' as u8, 'o' as u8, 'u' as u8, 'n' as u8, 'd' as u8, 's' as u8]) == Some(Token::Sounds)) by {
        let w = seq!['s' as u8, 'o' as u8, 'u' as u8, 'n' as u8, 'd' as u8, 's' as u8];
        assert(w.len() == 6);
        assert(seq!['c' as u8, 'o' as u8, 's' as u8, 't' as u8, 'u' as u8, 'm' as u8, 'e' as u8, 's' as u8].len() == 8);
    }
    assert(spec_keyword(seq!['v' as u8, 'a' as u8, 'r' as u8]) == Some(Token::Var)) by {
        let w = seq!['v' as u8, 'a' as u8, 'r' as u8];
        assert(w.len() == 3);
        assert(seq!['c' as u8, 'o' as u8, 's' as u8, 't' as u8, 'u' as u8, 'm' as u8, 'e' as u8, 's' as u8].len() == 8);
        assert(seq!['s' as u8, 'o' as u8, 'u' as u8, 'n' as u8, 'd' as u8, 's' as u8].len() == 6);
    }
    assert(spec_keyword(seq!['l' as u8, 'i' as u8, 's' as u8, 't' as u8]) == Some(Token::List)) by {
        let w = seq!['l' as u8, 'i' as u8, 's' as u8, 't' as u8];
        assert(w.len() == 4);
        assert(seq!['c' as u8, 'o' as u8, 's' as u8, 't' as u8, 'u' as u8, 'm' as u8, 'e' as u8, 's' as u8].len() == 8);
        assert(seq!['s' as u8, 'o' as u8, 'u' as u8, 'n' as u8, 'd' as u8, 's' as u8].len() == 6);
        assert(seq!['v' as u8, 'a' as u8, 'r' as u8].len() == 3);
    }
    assert(spec_keyword(seq!['l' as u8, 'e' as u8, 't' as u8]) == Some(Token::Let)) by {
        let w = seq!['l' as u8, 'e' as u8, 't' as u8];
        assert(w.len() == 3);
        assert(seq!['c' as u8, 'o' as u8, 's' as u8, 't' as u8, 'u' as u8, 'm' as u8, 'e' as u8, 's' as u8].len() == 8);
        assert(seq!['s' as u8, 'o' as u8, 'u' as u8, 'n' as u8, 'd' as u8, 's' as u8].len() == 6);
        assert(w[0] != seq!['v' as u8, 'a' as u8, 'r' as u8][0]);
        assert(seq!['l' as u8, 'i' as u8, 's' as u8, 't' as u8].len() == 4);
    }
    assert(spec_keyword(seq!['s' as u8, 't' as u8, 'r' as u8, 'u' as u8, 'c' as u8, 't' as u8]) == Some(Token::Struct)) by {
        let w = seq!['s' as u8, 't' as u8, 'r' as u8, 'u' as u8, 'c' as u8, 't' as u8];
        assert(w.len() == 6);
        assert(seq!['c' as u8, 'o' as u8, 's' as u8, 't' as u8, 'u' as u8, 'm' as u8, 'e' as u8, 's' as u8].len() == 8);
        assert(w[1] != seq!['s' as u8, 'o' as u8, 'u' as u8, 'n' as u8, 'd' as u8, 's' as u8][1]);
        assert(seq!['v' as u8, 'a' as u8, 'r' as u8].len() == 3);
        assert(seq!['l' as u8, 'i' as u8, 's' as u8, 't' as u8].len() == 4);
        assert(seq!['l' as u8, 'e' as u8, 't' as u8].len() == 3);
    }
    assert(spec_keyword(seq!['e' as u8, 'n' as u8, 'u' as u8, 'm' as u8]) == Some(Token::Enum)) by {
        let w = seq!['e' as u8, 'n' as u8, 'u' as u8, 'm' as u8];
        assert(w.len() == 4);
        assert(seq!['c' as u8, 'o' as u8, 's' as u8, 't' as u8, 'u' as u8, 'm' as u8, 'e' as u8, 's' as u8].len() == 8);
        assert(seq!['s' as u8, 'o' as u8, 'u' as u8, 'n' as u8, 'd' as u8, 's' as u8].len() == 6);
        assert(seq!['v' as u8, 'a' as u8, 'r' as u8].len() == 3);
        assert(w[0] != seq!['l' as u8, 'i' as u8, 's' as u8, 't' as u8][0]);
        assert(seq!['l' as u8, 'e' as u8, 't' as u8].len() == 3);
        assert(seq!['s' as u8, 't' as u8, 'r' as u8, 'u' as u8, 'c' as u8, 't' as u8].len() == 6);
    }
    assert(spec_keyword(seq!['f' as u8, 'u' as u8, 'n' as u8, 'c' as u8, 't' as u8, 'i' as u8, 'o' as u8, 'n' as u8]) == Some(Token::Function)) by {
        let w = seq!['f' as u8, 'u' as u8, 'n' as u8, 'c' as u8, 't' as u8, 'i' as u8, 'o' as u8, 'n' as u8];
        assert(w.len() == 8);
        assert(w[0] != seq!['c' as u8, 'o' as u8, 's' as u8, 't' as u8, 'u' as u8, 'm' as u8, 'e' as u8, 's' as u8][0]);
        assert(seq!['s' as u8, 'o' as u8, 'u' as u8, 'n' as u8, 'd' as u8, 's' as u8].len() == 6);
        assert(seq!['v' as u8, 'a' as u8, 'r' as u8].len() == 3);
        assert(seq!['l' as u8, 'i' as u8, 's' as u8, 't' as u8].len() == 4);
        assert(seq!['l' as u8, 'e' as u8, 't' as u8].len() == 3);
        assert(seq!['s' as u8, 't' as u8, 'r' as u8, 'u' as u8, 'c' as u8, 't' as u8].len() == 6);
        assert(seq!['e' as u8, 'n' as u8, 'u' as u8, 'm' as u8].len() == 4);
    }
    assert(spec_keyword(seq!['n' as u8, 'o' as u8, 'w' as u8, 'a' as u8, 'r' as u8, 'p' as u8]) == Some(Token::Nowarp)) by {
        let w = seq!['n' as u8, 'o' as u8, 'w' as u8, 'a' as u8, 'r' as u8, 'p' as u8];
        assert(w.len() == 6);
        assert(seq!['c' as u8, 'o' as u8, 's' as u8, 't' as u8, 'u' as u8, 'm' as u8, 'e' as u8, 's' as u8].len() == 8);
        assert(w[0] != seq!['s' as u8, 'o' as u8, 'u' as u8, 'n' as u8, 'd' as u8, 's' as u8][0]);
        assert(seq!['v' as u8, 'a' as u8, 'r' as u8].len() == 3);
        assert(seq!['l' as u8, 'i' as u8, 's' as u8, 't' as u8].len() == 4);
        assert(seq!['l' as u8, 'e' as u8, 't' as u8].len() == 3);
        assert(w[0] != seq!['s' as u8, 't' as u8, 'r' as u8, 'u' as u8, 'c' as u8, 't' as u8][0]);
        assert(seq!['e' as u8, 'n' as u8, 'u' as u8, 'm' as u8].len() == 4);
        assert(seq!['f' as u8, 'u' as u8, 'n' as u8, 'c' as u8, 't' as u8, 'i' as u8, 'o' as u8, 'n' as u8].len() == 8);
    }
    assert(spec_keyword(seq!['r' as u8, 'e' as u8, 't' as u8, 'u' as u8, 'r' as u8, 'n' as u8]) == Some(Token::Return)) by {
        let w = seq!['r' as u8, 'e' as u8, 't' as u8, 'u' as u8, 'r' as u8, 'n' as u8];
        assert(w.len() == 6);
        assert(seq!['c' as u8, 'o' as u8, 's' as u8, 't' as u8, 'u' as u8, 'm' as u8, 'e' as u8, 's' as u8].len() == 8);
        assert(w[0] != seq!['s' as u8, 'o' as u8, 'u' as u8, 'n' as u8, 'd' as u8, 's' as u8][0]);
        assert(seq!['v' as u8, 'a' as u8, 'r' as u8].len() == 3);
        assert(seq!['l' as u8, 'i' as u8, 's' as u8, 't' as u8].len() == 4);
        assert(seq!['l' as u8, 'e' as u8, 't' as u8].len() == 3);
        assert(w[0] != seq!['s' as u8, 't' as u8, 'r' as u8, 'u' as u8, 'c' as u8, 't' as u8][0]);
        assert(seq!['e' as u8, 'n' as u8, 'u' as u8, 'm' as u8].len() == 4);
        assert(seq!['f' as u8, 'u' as u8, 'n' as u8, 'c' as u8, 't' as u8, 'i' as u8, 'o' as u8, 'n' as u8].len() == 8);
        assert(w[0] != seq!['n' as u8, 'o' as u8, 'w' as u8, 'a' as u8, 'r' as u8, 'p' as u8][0]);
    }
    assert(spec_keyword(seq!['o' as u8, 'n' as u8, 'f' as u8, 'l' as u8, 'a' as u8, 'g' as u8]) == Some(Token::OnFlag)) by {
        let w = seq!['o' as u8, 'n' as u8, 'f' as u8, 'l' as u8, 'a' as u8, 'g' as u8];
        assert(w.len() == 6);
        assert(seq!['c' as u8, 'o' as u8, 's' as u8, 't' as u8, 'u' as u8, 'm' as u8, 'e' as u8, 's' as u8].len() == 8);
        assert(w[0] != seq!['s' as u8, 'o' as u8, 'u' as u8, 'n' as u8, 'd' as u8, 's' as u8][0]);
        assert(seq!['v' as u8, 'a' as u8, 'r' as u8].len() == 3);
        assert(seq!['l' as u8, 'i' as u8, 's' as u8, 't' as u8].len() == 4);
        assert(seq!['l' as u8, 'e' as u8, 't' as u8].len() == 3);
        assert(w[0] != seq!['s' as u8, 't' as u8, 'r' as u8, 'u' as u8, 'c' as u8, 't' as u8][0]);
        assert(seq!['e' as u8, 'n' as u8, 'u' as u8, 'm' as u8].len() == 4);
        assert(seq!['f' as u8, 'u' as u8, 'n' as u8, 'c' as u8, 't' as u8, 'i' as u8, 'o' as u8, 'n' as u8].len() == 8);
        assert(w[0] != seq!['n' as u8, 'o' as u8, 'w' as u8, 'a' as u8, 'r' as u8, 'p' as u8][0]);
        assert(w[0] != seq!['r' as u8, 'e' as u8, 't' as u8, 'u' as u8, 'r' as u8, 'n' as u8][0]);
    }
    assert(spec_keyword(seq!['o' as u8, 'n' as u8, 'c' as u8, 'l' as u8, 'i' as u8, 'c' as u8, 'k' as u8]) == Some(Token::OnClick)) by {
        let w = seq!['o' as u8, 'n' as u8, 'c' as u8, 'l' as u8, 'i' as u8, 'c' as u8, 'k' as u8];
        assert(w.len() == 7);
        assert(seq!['c' as u8, 'o' as u8, 's' as u8, 't' as u8, 'u' as u8, 'm' as u8, 'e' as u8, 's' as u8].len() == 8);
        assert(seq!['s' as u8, 'o' as u8, 'u' as u8, 'n' as u8, 'd' as u8, 's' as u8].len() == 6);
        assert(seq!['v' as u8, 'a' as u8, 'r' as u8].len() == 3);
        assert(seq!['l' as u8, 'i' as u8, 's' as u8, 't' as u8].len() == 4);
        assert(seq!['l' as u8, 'e' as u8, 't' as u8].len() == 3);
        assert(seq!['s' as u8, 't' as u8, 'r' as u8, 'u' as u8, 'c' as u8, 't' as u8].len() == 6);
        assert(seq!['e' as u8, 'n' as u8, 'u' as u8, 'm' as u8].len() == 4);
        assert(seq!['f' as u8, 'u' as u8, 'n' as u8, 'c' as u8, 't' as u8, 'i' as u8, 'o' as u8, 'n' as u8].len() == 8);
        assert(seq!['n' as u8, 'o' as u8, 'w' as u8, 'a' as u8, 'r' as u8, 'p' as u8].len() == 6);
        assert(seq!['r' as u8, 'e' as u8, 't' as u8, 'u' as u8, 'r' as u8, 'n' as u8].len() == 6);
        assert(seq!['o' as u8, 'n' as u8, 'f' as u8, 'l' as u8, 'a' as u8, 'g' as u8].len() == 6);
    }
    assert(spec_keyword(seq!['o' as u8, 'n' as u8, 'c' as u8, 'l' as u8, 'o' as u8, 'n' as u8, 'e' as u8]) == Some(Token::OnClone)) by {
        let w = seq!['o' as u8, 'n' as u8, 'c' as u8, 'l' as u8, 'o' as u8, 'n' as u8, 'e' as u8];
        assert(w.len() == 7);
        assert(seq!['c' as u8, 'o' as u8, 's' as u8, 't' as u8, 'u' as u8, 'm' as u8, 'e' as u8, 's' as u8].len() == 8);
        assert(seq!['s' as u8, 'o' as u8, 'u' as u8, 'n' as u8, 'd' as u8, 's' as u8].len() == 6);
        assert(seq!['v' as u8, 'a' as u8, 'r' as u8].len() == 3);
        assert(seq!['l' as u8, 'i' as u8, 's' as u8, 't' as u8].len() == 4);
        assert(seq!['l' as u8, 'e' as u8, 't' as u8].len() == 3);
        assert(seq!['s' as u8, 't' as u8, 'r' as u8, 'u' as u8, 'c' as u8, 't' as u8].len() == 6);
        assert(seq!['e' as u8, 'n' as u8, 'u' as u8, 'm' as u8].len() == 4);
        assert(seq!['f' as u8, 'u' as u8, 'n' as u8, 'c' as u8, 't' as u8, 'i' as u8, 'o' as u8, 'n' as u8].len() == 8);
        assert(seq!['n' as u8, 'o' as u8, 'w' as u8, 'a' as u8, 'r' as u8, 'p' as u8].len() == 6);
        assert(seq!['r' as u8, 'e' as u8, 't' as u8, 'u' as u8, 'r' as u8, 'n' as u8].len() == 6);
        assert(seq!['o' as u8, 'n' as u8, 'f' as u8, 'l' as u8, 'a' as u8, 'g' as u8].len() == 6);
        assert(w[4] != seq!['o' as u8, 'n' as u8, 'c' as u8, 'l' as u8, 'i' as u8, 'c' as u8, 'k' as u8][4]);
    }
    assert(spec_keyword(seq!['o' as u8, 'n' as u8, 'k' as u8, 'e' as u8, 'y' as u8]) == Some(Token::OnKey)) by {
        let w = seq!['o' as u8, 'n' as u8, 'k' as u8, 'e' as u8, 'y' as u8];
        assert(w.len() == 5);
        assert(seq!['c' as u8, 'o' as u8, 's' as u8, 't' as u8, 'u' as u8, 'm' as u8, 'e' as u8, 's' as u8].len() == 8);
        assert(seq!['s' as u8, 'o' as u8, 'u' as u8, 'n' as u8, 'd' as u8, 's' as u8].len() == 6);
        assert(seq!['v' as u8, 'a' as u8, 'r' as u8].len() == 3);
        assert(seq!['l' as u8, 'i' as u8, 's' as u8, 't' as u8].len() == 4);
        assert(seq!['l' as u8, 'e' as u8, 't' as u8].len() == 3);
        assert(seq!['s' as u8, 't' as u8, 'r' as u8, 'u' as u8, 'c' as u8, 't' as u8].len() == 6);
        assert(seq!['e' as u8, 'n' as u8, 'u' as u8, 'm' as u8].len() == 4);
        assert(seq!['f' as u8, 'u' as u8, 'n' as u8, 'c' as u8, 't' as u8, 'i' as u8, 'o' as u8, 'n' as u8].len() == 8);
        assert(seq!['n' as u8, 'o' as u8, 'w' as u8, 'a' as u8, 'r' as u8, 'p' as u8].len() == 6);
        assert(seq!['r' as u8, 'e' as u8, 't' as u8, 'u' as u8, 'r' as u8, 'n' as u8].len() == 6);
        assert(seq!['o' as u8, 'n' as u8, 'f' as u8, 'l' as u8, 'a' as u8, 'g' as u8].len() == 6);
        assert(seq!['o' as u8, 'n' as u8, 'c' as u8, 'l' as u8, 'i' as u8, 'c' as u8, 'k' as u8].len() == 7);
        assert(seq!['o' as u8, 'n' as u8, 'c' as u8, 'l' as u8, 'o' as u8, 'n' as u8, 'e' as u8].len() == 7);
    }
    assert(spec_keyword(seq!['o' as u8, 'n' as u8]) == Some(Token::On)) by {
        let w = seq!['o' as u8, 'n' as u8];
        assert(w.len() == 2);
        assert(seq!['c' as u8, 'o' as u8, 's' as u8, 't' as u8, 'u' as u8, 'm' as u8, 'e' as u8, 's' as u8].len() == 8);
        assert(seq!['s' as u8, 'o' as u8, 'u' as u8, 'n' as u8, 'd' as u8, 's' as u8].len() == 6);
        assert(seq!['v' as u8, 'a' as u8, 'r' as u8].len() == 3);
        assert(seq!['l' as u8, 'i' as u8, 's' as u8, 't' as u8].len() == 4);
        assert(seq!['l' as u8, 'e' as u8, 't' as u8].len() == 3);
        assert(seq!['s' as u8, 't' as u8, 'r' as u8, 'u' as u8, 'c' as u8, 't' as u8].len() == 6);
        assert(seq!['e' as u8, 'n' as u8, 'u' as u8, 'm' as u8].len() == 4);
        assert(seq!['f' as u8, 'u' as u8, 'n' as u8, 'c' as u8, 't' as u8, 'i' as u8, 'o' as u8, 'n' as u8].len() == 8);
        assert(seq!['n' as u8, 'o' as u8, 'w' as u8, 'a' as u8, 'r' as u8, 'p' as u8].len() == 6);
        assert(seq!['r' as u8, 'e' as u8, 't' as u8, 'u' as u8, 'r' as u8, 'n' as u8].len() == 6);
        assert(seq!['o' as u8, 'n' as u8, 'f' as u8, 'l' as u8, 'a' as u8, 'g' as u8].len() == 6);
        assert(seq!['o' as u8, 'n' as u8, 'c' as u8, 'l' as u8, 'i' as u8, 'c' as u8, 'k' as u8].len() == 7);
        assert(seq!['o' as u8, 'n' as u8, 'c' as u8, 'l' as u8, 'o' as u8, 'n' as u8, 'e' as u8].len() == 7);
        assert(seq!['o' as u8, 'n' as u8, 'k' as u8, 'e' as u8, 'y' as u8].len() == 5);
    }
    assert(spec_keyword(seq!['o' as u8, 'n' as u8, 'b' as u8, 'a' as u8, 'c' as u8, 'k' as u8, 'd' as u8, 'r' as u8, 'o' as u8, 'p' as u8]) == Some(Token::OnBackdrop)) by {
        let w = seq!['o' as u8, 'n' as u8, 'b' as u8, 'a' as u8, 'c' as u8, 'k' as u8, 'd' as u8, 'r' as u8, 'o' as u8, 'p' as u8];
        assert(w.len() == 10);
        assert(seq!['c' as u8, 'o' as u8, 's' as u8, 't' as u8, 'u' as u8, 'm' as u8, 'e' as u8, 's' as u8].len() == 8);
        assert(seq!['s' as u8, 'o' as u8, 'u' as u8, 'n' as u8, 'd' as u8, 's' as u8].len() == 6);
        assert(seq!['v' as u8, 'a' as u8, 'r' as u8].len() == 3);
        assert(seq!['l' as u8, 'i' as u8, 's' as u8, 't' as u8].len() == 4);
        assert(seq!['l' as u8, 'e' as u8, 't' as u8].len() == 3);
        assert(seq!['s' as u8, 't' as u8, 'r' as u8, 'u' as u8, 'c' as u8, 't' as u8].len() == 6);
        assert(seq!['e' as u8, 'n' as u8, 'u' as u8, 'm' as u8].len() == 4);
        assert(seq!['f' as u8, 'u' as u8, 'n' as u8, 'c' as u8, 't' as u8, 'i' as u8, 'o' as u8, 'n' as u8].len() == 8);
        assert(seq!['n' as u8, 'o' as u8, 'w' as u8, 'a' as u8, 'r' as u8, 'p' as u8].len() == 6);
        assert(seq!['r' as u8, 'e' as u8, 't' as u8, 'u' as u8, 'r' as u8, 'n' as u8].len() == 6);
        assert(seq!['o' as u8, 'n' as u8, 'f' as u8, 'l' as u8, 'a' as u8, 'g' as u8].len() == 6);
        assert(seq!['o' as u8, 'n' as u8, 'c' as u8, 'l' as u8, 'i' as u8, 'c' as u8, 'k' as u8].len() == 7);
        assert(seq!['o' as u8, 'n' as u8, 'c' as u8, 'l' as u8, 'o' as u8, 'n' as u8, 'e' as u8].len() == 7);
        assert(seq!['o' as u8, 'n' as u8, 'k' as u8, 'e' as u8, 'y' as u8].len() == 5);
        assert(seq!['o' as u8, 'n' as u8].len() == 2);
    }
    assert(spec_keyword(seq!['i' as u8, 'f' as u8]) == Some(Token::If)) by {
        let w = seq!['i' as u8, 'f' as u8];
        assert(w.len() == 2);
        assert(seq!['c' as u8, 'o' as u8, 's' as u8, 't' as u8, 'u' as u8, 'm' as u8, 'e' as u8, 's' as u8].len() == 8);
        assert(seq!['s' as u8, 'o' as u8, 'u' as u8, 'n' as u8, 'd' as u8, 's' as u8].len() == 6);
        assert(seq!['v' as u8, 'a' as u8, 'r' as u8].len() == 3);
        assert(seq!['l' as u8, 'i' as u8, 's' as u8, 't' as u8].len() == 4);
        assert(seq!['l' as u8, 'e' as u8, 't' as u8].len() == 3);
        assert(seq!['s' as u8, 't' as u8, 'r' as u8, 'u' as u8, 'c' as u8, 't' as u8].len() == 6);
        assert(seq!['e' as u8, 'n' as u8, 'u' as u8, 'm' as u8].len() == 4);
        assert(seq!['f' as u8, 'u' as u8, 'n' as u8, 'c' as u8, 't' as u8, 'i' as u8, 'o' as u8, 'n' as u8].len() == 8);
        assert(seq!['n' as u8, 'o' as u8, 'w' as u8, 'a' as u8, 'r' as u8, 'p' as u8].len() == 6);
        assert(seq!['r' as u8, 'e' as u8, 't' as u8, 'u' as u8, 'r' as u8, 'n' as u8].len() == 6);
        assert(seq!['o' as u8, 'n' as u8, 'f' as u8, 'l' as u8, 'a' as u8, 'g' as u8].len() == 6);
        assert(seq!['o' as u8, 'n' as u8, 'c' as u8, 'l' as u8, 'i' as u8, 'c' as u8, 'k' as u8].len() == 7);
        assert(seq!['o' as u8, 'n' as u8, 'c' as u8, 'l' as u8, 'o' as u8, 'n' as u8, 'e' as u8].len() == 7);
        assert(seq!['o' as u8, 'n' as u8, 'k' as u8, 'e' as u8, 'y' as u8].len() == 5);
        assert(w[0] != seq!['o' as u8, 'n' as u8][0]);
        assert(seq!['o' as u8, 'n' as u8, 'b' as u8, 'a' as u8, 'c' as u8, 'k' as u8, 'd' as u8, 'r' as u8, 'o' as u8, 'p' as u8].len() == 10);
    }
    assert(spec_keyword(seq!['e' as u8, 'l' as u8, 's' as u8, 'e' as u8]) == Some(Token::Else)) by {
        let w = seq!['e' as u8, 'l' as u8, 's' as u8, 'e' as u8];
        assert(w.len() == 4);
        assert(seq!['c' as u8, 'o' as u8, 's' as u8, 't' as u8, 'u' as u8, 'm' as u8, 'e' as u8, 's' as u8].len() == 8);
        assert(seq!['s' as u8, 'o' as u8, 'u' as u8, 'n' as u8, 'd' as u8, 's' as u8].len() == 6);
        assert(seq!['v' as u8, 'a' as u8, 'r' as u8].len() == 3);
        assert(w[0] != seq!['l' as u8, 'i' as u8, 's' as u8, 't' as u8][0]);
        assert(seq!['l' as u8, 'e' as u8, 't' as u8].len() == 3);
        assert(seq!['s' as u8, 't' as u8, 'r' as u8, 'u' as u8, 'c' as u8, 't' as u8].len() == 6);
        assert(w[1] != seq!['e' as u8, 'n' as u8, 'u' as u8, 'm' as u8][1]);
        assert(seq!['f' as u8, 'u' as u8, 'n' as u8, 'c' as u8, 't' as u8, 'i' as u8, 'o' as u8, 'n' as u8].len() == 8);
        assert(seq!['n' as u8, 'o' as u8, 'w' as u8, 'a' as u8, 'r' as u8, 'p' as u8].len() == 6);
        assert(seq!['r' as u8, 'e' as u8, 't' as u8, 'u' as u8, 'r' as u8, 'n' as u8].len() == 6);
        assert(seq!['o' as u8, 'n' as u8, 'f' as u8, 'l' as u8, 'a' as u8, 'g' as u8].len() == 6);
        assert(seq!['o' as u8, 'n' as u8, 'c' as u8, 'l' as u8, 'i' as u8, 'c' as u8, 'k' as u8].len() == 7);
        assert(seq!['o' as u8, 'n' as u8, 'c' as u8, 'l' as u8, 'o' as u8, 'n' as u8, 'e' as u8].len() == 7);
        assert(seq!['o' as u8, 'n' as u8, 'k' as u8, 'e' as u8, 'y' as u8].len() == 5);
        assert(seq!['o' as u8, 'n' as u8].len() == 2);
        assert(seq!['o' as u8, 'n' as u8, 'b' as u8, 'a' as u8, 'c' as u8, 'k' as u8, 'd' as u8, 'r' as u8, 'o' as u8, 'p' as u8].len() == 10);
        assert(seq!['i' as u8, 'f' as u8].len() == 2);
    }
    assert(spec_keyword(seq!['w' as u8, 'h' as u8, 'i' as u8, 'l' as u8, 'e' as u8]) == Some(Token::While)) by {
        let w = seq!['w' as u8, 'h' as u8, 'i' as u8, 'l' as u8, 'e' as u8];
        assert(w.len() == 5);
        assert(seq!['c' as u8, 'o' as u8, 's' as u8, 't' as u8, 'u' as u8, 'm' as u8, 'e' as u8, 's' as u8].len() == 8);
        assert(seq!['s' as u8, 'o' as u8, 'u' as u8, 'n' as u8, 'd' as u8, 's' as u8].len() == 6);
        assert(seq!['v' as u8, 'a' as u8, 'r' as u8].len() == 3);
        assert(seq!['l' as u8, 'i' as u8, 's' as u8, 't' as u8].len() == 4);
        assert(seq!['l' as u8, 'e' as u8, 't' as u8].len() == 3);
        assert(seq!['s' as u8, 't' as u8, 'r' as u8, 'u' as u8, 'c' as u8, 't' as u8].len() == 6);
        assert(seq!['e' as u8, 'n' as u8, 'u' as u8, 'm' as u8].len() == 4);
        assert(seq!['f' as u8, 'u' as u8, 'n' as u8, 'c' as u8, 't' as u8, 'i' as u8, 'o' as u8, 'n' as u8].len() == 8);
        assert(seq!['n' as u8, 'o' as u8, 'w' as u8, 'a' as u8, 'r' as u8, 'p' as u8].len() == 6);
        assert(seq!['r' as u8, 'e' as u8, 't' as u8, 'u' as u8, 'r' as u8, 'n' as u8].len() == 6);
        assert(seq!['o' as u8, 'n' as u8, 'f' as u8, 'l' as u8, 'a' as u8, 'g' as u8].len() == 6);
        assert(seq!['o' as u8, 'n' as u8, 'c' as u8, 'l' as u8, 'i' as u8, 'c' as u8, 'k' as u8].len() == 7);
        assert(seq!['o' as u8, 'n' as u8, 'c' as u8, 'l' as u8, 'o' as u8, 'n' as u8, 'e' as u8].len() == 7);
        assert(w[0] != seq!['o' as u8, 'n' as u8, 'k' as u8, 'e' as u8, 'y' as u8][0]);
        assert(seq!['o' as u8, 'n' as u8].len() == 2);
        assert(seq!['o' as u8, 'n' as u8, 'b' as u8, 'a' as u8, 'c' as u8, 'k' as u8, 'd' as u8, 'r' as u8, 'o' as u8, 'p' as u8].len() == 10);
        assert(seq!['i' as u8, 'f' as u8].len() == 2);
        assert(seq!['e' as u8, 'l' as u8, 's' as u8, 'e' as u8].len() == 4);
    }
    assert(spec_keyword(seq!['r' as u8, 'e' as u8, 'p' as u8, 'e' as u8, 'a' as u8, 't' as u8]) == Some(Token::Repeat)) by {
        let w = seq!['r' as u8, 'e' as u8, 'p' as u8, 'e' as u8, 'a' as u8, 't' as u8];
        assert(w.len() == 6);
        assert(seq!['c' as u8, 'o' as u8, 's' as u8, 't' as u8, 'u' as u8, 'm' as u8, 'e' as u8, 's' as u8].len() == 8);
        assert(w[0] != seq!['s' as u8, 'o' as u8, 'u' as u8, 'n' as u8, 'd' as u8, 's' as u8][0]);
        assert(seq!['v' as u8, 'a' as u8, 'r' as u8].len() == 3);
        assert(seq!['l' as u8, 'i' as u8, 's' as u8, 't' as u8].len() == 4);
        assert(seq!['l' as u8, 'e' as u8, 't' as u8].len() == 3);
        assert(w[0] != seq!['s' as u8, 't' as u8, 'r' as u8, 'u' as u8, 'c' as u8, 't' as u8][0]);
        assert(seq!['e' as u8, 'n' as u8, 'u' as u8, 'm' as u8].len() == 4);
        assert(seq!['f' as u8, 'u' as u8, 'n' as u8, 'c' as u8, 't' as u8, 'i' as u8, 'o' as u8, 'n' as u8].len() == 8);
        assert(w[0] != seq!['n' as u8, 'o' as u8, 'w' as u8, 'a' as u8, 'r' as u8, 'p' as u8][0]);
        assert(w[2] != seq!['r' as u8, 'e' as u8, 't' as u8, 'u' as u8, 'r' as u8, 'n' as u8][2]);
        assert(w[0] != seq!['o' as u8, 'n' as u8, 'f' as u8, 'l' as u8, 'a' as u8, 'g' as u8][0]);
        assert(seq!['o' as u8, 'n' as u8, 'c' as u8, 'l' as u8, 'i' as u8, 'c' as u8, 'k' as u8].len() == 7);
        assert(seq!['o' as u8, 'n' as u8, 'c' as u8, 'l' as u8, 'o' as u8, 'n' as u8, 'e' as u8].len() == 7);
        assert(seq!['o' as u8, 'n' as u8, 'k' as u8, 'e' as u8, 'y' as u8].len() == 5);
        assert(seq!['o' as u8, 'n' as u8].len() == 2);
        assert(seq!['o' as u8, 'n' as u8, 'b' as u8, 'a' as u8, 'c' as u8, 'k' as u8, 'd' as u8, 'r' as u8, 'o' as u8, 'p' as u8].len() == 10);
        assert(seq!['i' as u8, 'f' as u8].len() == 2);
        assert(seq!['e' as u8, 'l' as u8, 's' as u8, 'e' as u8].len() == 4);
        assert(seq!['w' as u8, 'h' as u8, 'i' as u8, 'l' as u8, 'e' as u8].len() == 5);
    }
    assert(spec_keyword(seq!['f' as u8, 'o' as u8, 'r' as u8, 'e' as u8, 'v' as u8, 'e' as u8, 'r' as u8]) == Some(Token::Forever)) by {
        let w = seq!['f' as u8, 'o' as u8, 'r' as u8, 'e' as u8, 'v' as u8, 'e' as u8, 'r' as u8];
        assert(w.len() == 7);
        assert(seq!['c' as u8, 'o' as u8, 's' as u8, 't' as u8, 'u' as u8, 'm' as u8, 'e' as u8, 's' as u8].len() == 8);
        assert(seq!['s' as u8, 'o' as u8, 'u' as u8, 'n' as u8, 'd' as u8, 's' as u8].len() == 6);
        assert(seq!['v' as u8, 'a' as u8, 'r' as u8].len() == 3);
        assert(seq!['l' as u8, 'i' as u8, 's' as u8, 't' as u8].len() == 4);
        assert(seq!['l' as u8, 'e' as u8, 't' as u8].len() == 3);
        assert(seq!['s' as u8, 't' as u8, 'r' as u8, 'u' as u8, 'c' as u8, 't' as u8].len() == 6);
        assert(seq!['e' as u8, 'n' as u8, 'u' as u8, 'm' as u8].len() == 4);
        assert(seq!['f' as u8, 'u' as u8, 'n' as u8, 'c' as u8, 't' as u8, 'i' as u8, 'o' as u8, 'n' as u8].len() == 8);
        assert(seq!['n' as u8, 'o' as u8, 'w' as u8, 'a' as u8, 'r' as u8, 'p' as u8].len() == 6);
        assert(seq!['r' as u8, 'e' as u8, 't' as u8, 'u' as u8, 'r' as u8, 'n' as u8].len() == 6);
        assert(seq!['o' as u8, 'n' as u8, 'f' as u8, 'l' as u8, 'a' as u8, 'g' as u8].len() == 6);
        assert(w[0] != seq!['o' as u8, 'n' as u8, 'c' as u8, 'l' as u8, 'i' as u8, 'c' as u8, 'k' as u8][0]);
        assert(w[0] != seq!['o' as u8, 'n' as u8, 'c' as u8, 'l' as u8, 'o' as u8, 'n' as u8, 'e' as u8][0]);
        assert(seq!['o' as u8, 'n' as u8, 'k' as u8, 'e' as u8, 'y' as u8].len() == 5);
        assert(seq!['o' as u8, 'n' as u8].len() == 2);
        assert(seq!['o' as u8, 'n' as u8, 'b' as u8, 'a' as u8, 'c' as u8, 'k' as u8, 'd' as u8, 'r' as u8, 'o' as u8, 'p' as u8].len() == 10);
        assert(seq!['i' as u8, 'f' as u8].len() == 2);
        assert(seq!['e' as u8, 'l' as u8, 's' as u8, 'e' as u8].len() == 4);
        assert(seq!['w' as u8, 'h' as u8, 'i' as u8, 'l' as u8, 'e' as u8].len() == 5);
        assert(seq!['r' as u8, 'e' as u8, 'p' as u8, 'e' as u8, 'a' as u8, 't' as u8].len() == 6);
    }
    assert(spec_keyword(seq!['d' as u8, 'e' as u8, 'l' as u8, 'e' as u8, 't' as u8, 'e' as u8]) == Some(Token::Delete)) by {
        let w = seq!['d' as u8, 'e' as u8, 'l' as u8, 'e' as u8, 't' as u8, 'e' as u8];
        assert(w.len() == 6);
        assert(seq!['c' as u8, 'o' as u8, 's' as u8, 't' as u8, 'u' as u8, 'm' as u8, 'e' as u8, 's' as u8].len() == 8);
        assert(w[0] != seq!['s' as u8, 'o' as u8, 'u' as u8, 'n' as u8, 'd' as u8, 's' as u8][0]);
        assert(seq!['v' as u8, 'a' as u8, 'r' as u8].len() == 3);
        assert(seq!['l' as u8, 'i' as u8, 's' as u8, 't' as u8].len() == 4);
        assert(seq!['l' as u8, 'e' as u8, 't' as u8].len() == 3);
        assert(w[0] != seq!['s' as u8, 't' as u8, 'r' as u8, 'u' as u8, 'c' as u8, 't' as u8][0]);
        assert(seq!['e' as u8, 'n' as u8, 'u' as u8, 'm' as u8].len() == 4);
        assert(seq!['f' as u8, 'u' as u8, 'n' as u8, 'c' as u8, 't' as u8, 'i' as u8, 'o' as u8, 'n' as u8].len() == 8);
        assert(w[0] != seq!['n' as u8, 'o' as u8, 'w' as u8, 'a' as u8, 'r' as u8, 'p' as u8][0]);
        assert(w[0] != seq!['r' as u8, 'e' as u8, 't' as u8, 'u' as u8, 'r' as u8, 'n' as u8][0]);
        assert(w[0] != seq!['o' as u8, 'n' as u8, 'f' as u8, 'l' as u8, 'a' as u8, 'g' as u8][0]);
        assert(seq!['o' as u8, 'n' as u8, 'c' as u8, 'l' as u8, 'i' as u8, 'c' as u8, 'k' as u8].len() == 7);
        assert(seq!['o' as u8, 'n' as u8, 'c' as u8, 'l' as u8, 'o' as u8, 'n' as u8, 'e' as u8].len() == 7);
        assert(seq!['o' as u8, 'n' as u8, 'k' as u8, 'e' as u8, 'y' as u8].len() == 5);
        assert(seq!['o' as u8, 'n' as u8].len() == 2);
        assert(seq!['o' as u8, 'n' as u8, 'b' as u8, 'a' as u8, 'c' as u8, 'k' as u8, 'd' as u8, 'r' as u8, 'o' as u8, 'p' as u8].len() == 10);
        assert(seq!['i' as u8, 'f' as u8].len() == 2);
        assert(seq!['e' as u8, 'l' as u8, 's' as u8, 'e' as u8].len() == 4);
        assert(seq!['w' as u8, 'h' as u8, 'i' as u8, 'l' as u8, 'e' as u8].len() == 5);
        assert(w[0] != seq!['r' as u8, 'e' as u8, 'p' as u8, 'e' as u8, 'a' as u8, 't' as u8][0]);
        assert(seq!['f' as u8, 'o' as u8, 'r' as u8, 'e' as u8, 'v' as u8, 'e' as u8, 'r' as u8].len() == 7);
    }
    assert(spec_keyword(seq!['i' as u8, 'n' as u8, 's' as u8, 'e' as u8, 'r' as u8, 't' as u8]) == Some(Token::Insert)) by {
        let w = seq!['i' as u8, 'n' as u8, 's' as u8, 'e' as u8, 'r' as u8, 't' as u8];
        assert(w.len() == 6);
        assert(seq!['c' as u8, 'o' as u8, 's' as u8, 't' as u8, 'u' as u8, 'm' as u8, 'e' as u8, 's' as u8].len() == 8);
        assert(w[0] != seq!['s' as u8, 'o' as u8, 'u' as u8, 'n' as u8, 'd' as u8, 's' as u8][0]);
        assert(seq!['v' as u8, 'a' as u8, 'r' as u8].len() == 3);
        assert(seq!['l' as u8, 'i' as u8, 's' as u8, 't' as u8].len() == 4);
        assert(seq!['l' as u8, 'e' as u8, 't' as u8].len() == 3);
        assert(w[0] != seq!['s' as u8, 't' as u8, 'r' as u8, 'u' as u8, 'c' as u8, 't' as u8][0]);
        assert(seq!['e' as u8, 'n' as u8, 'u' as u8, 'm' as u8].len() == 4);
        assert(seq!['f' as u8, 'u' as u8, 'n' as u8, 'c' as u8, 't' as u8, 'i' as u8, 'o' as u8, 'n' as u8].len() == 8);
        assert(w[0] != seq!['n' as u8, 'o' as u8, 'w' as u8, 'a' as u8, 'r' as u8, 'p' as u8][0]);
        assert(w[0] != seq!['r' as u8, 'e' as u8, 't' as u8, 'u' as u8, 'r' as u8, 'n' as u8][0]);
        assert(w[0] != seq!['o' as u8, 'n' as u8, 'f' as u8, 'l' as u8, 'a' as u8, 'g' as u8][0]);
        assert(seq!['o' as u8, 'n' as u8, 'c' as u8, 'l' as u8, 'i' as u8, 'c' as u8, 'k' as u8].len() == 7);
        assert(seq!['o' as u8, 'n' as u8, 'c' as u8, 'l' as u8, 'o' as u8, 'n' as u8, 'e' as u8].len() == 7);
        assert(seq!['o' as u8, 'n' as u8, 'k' as u8, 'e' as u8, 'y' as u8].len() == 5);
        assert(seq!['o' as u8, 'n' as u8].len() == 2);
        assert(seq!['o' as u8, 'n' as u8, 'b' as u8, 'a' as u8, 'c' as u8, 'k' as u8, 'd' as u8, 'r' as u8, 'o' as u8, 'p' as u8].len() == 10);
        assert(seq!['i' as u8, 'f' as u8].len() == 2);
        assert(seq!['e' as u8, 'l' as u8, 's' as u8, 'e' as u8].len() == 4);
        assert(seq!['w' as u8, 'h' as u8, 'i' as u8, 'l' as u8, 'e' as u8].len() == 5);
        assert(w[0] != seq!['r' as u8, 'e' as u8, 'p' as u8, 'e' as u8, 'a' as u8, 't' as u8][0]);
        assert(seq!['f' as u8, 'o' as u8, 'r' as u8, 'e' as u8, 'v' as u8, 'e' as u8, 'r' as u8].len() == 7);
        assert(w[0] != seq!['d' as u8, 'e' as u8, 'l' as u8, 'e' as u8, 't' as u8, 'e' as u8][0]);
    }
    assert(spec_keyword(seq!['a' as u8, 't' as u8]) == Some(Token::At)) by {
        let w = seq!['a' as u8, 't' as u8];
        assert(w.len() == 2);
        assert(seq!['c' as u8, 'o' as u8, 's' as u8, 't' as u8, 'u' as u8, 'm' as u8, 'e' as u8, 's' as u8].len() == 8);
        assert(seq!['s' as u8, 'o' as u8, 'u' as u8, 'n' as u8, 'd' as u8, 's' as u8].len() == 6);
        assert(seq!['v' as u8, 'a' as u8, 'r' as u8].len() == 3);
        assert(seq!['l' as u8, 'i' as u8, 's' as u8, 't' as u8].len() == 4);
        assert(seq!['l' as u8, 'e' as u8, 't' as u8].len() == 3);
        assert(seq!['s' as u8, 't' as u8, 'r' as u8, 'u' as u8, 'c' as u8, 't' as u8].len() == 6);
        assert(seq!['e' as u8, 'n' as u8, 'u' as u8, 'm' as u8].len() == 4);
        assert(seq!['f' as u8, 'u' as u8, 'n' as u8, 'c' as u8, 't' as u8, 'i' as u8, 'o' as u8, 'n' as u8].len() == 8);
        assert(seq!['n' as u8, 'o' as u8, 'w' as u8, 'a' as u8, 'r' as u8, 'p' as u8].len() == 6);
        assert(seq!['r' as u8, 'e' as u8, 't' as u8, 'u' as u8, 'r' as u8, 'n' as u8].len() == 6);
        assert(seq!['o' as u8, 'n' as u8, 'f' as u8, 'l' as u8, 'a' as u8, 'g' as u8].len() == 6);
        assert(seq!['o' as u8, 'n' as u8, 'c' as u8, 'l' as u8, 'i' as u8, 'c' as u8, 'k' as u8].len() == 7);
        assert(seq!['o' as u8, 'n' as u8, 'c' as u8, 'l' as u8, 'o' as u8, 'n' as u8, 'e' as u8].len() == 7);
        assert(seq!['o' as u8, 'n' as u8, 'k' as u8, 'e' as u8, 'y' as u8].len() == 5);
        assert(w[0] != seq!['o' as u8, 'n' as u8][0]);
        assert(seq!['o' as u8, 'n' as u8, 'b' as u8, 'a' as u8, 'c' as u8, 'k' as u8, 'd' as u8, 'r' as u8, 'o' as u8, 'p' as u8].len() == 10);
        assert(w[0] != seq!['i' as u8, 'f' as u8][0]);
        assert(seq!['e' as u8, 'l' as u8, 's' as u8, 'e' as u8].len() == 4);
        assert(seq!['w' as u8, 'h' as u8, 'i' as u8, 'l' as u8, 'e' as u8].len() == 5);
        assert(seq!['r' as u8, 'e' as u8, 'p' as u8, 'e' as u8, 'a' as u8, 't' as u8].len() == 6);
        assert(seq!['f' as u8, 'o' as u8, 'r' as u8, 'e' as u8, 'v' as u8, 'e' as u8, 'r' as u8].len() == 7);
        assert(seq!['d' as u8, 'e' as u8, 'l' as u8, 'e' as u8, 't' as u8, 'e' as u8].len() == 6);
        assert(seq!['i' as u8, 'n' as u8, 's' as u8, 'e' as u8, 'r' as u8, 't' as u8].len() == 6);
    }
    assert(spec_keyword(seq!['t' as u8, 'o' as u8]) == Some(Token::To)) by {
        let w = seq!['t' as u8, 'o' as u8];
        assert(w.len() == 2);
        assert(seq!['c' as u8, 'o' as u8, 's' as u8, 't' as u8, 'u' as u8, 'm' as u8, 'e' as u8, 's' as u8].len() == 8);
        assert(seq!['s' as u8, 'o' as u8, 'u' as u8, 'n' as u8, 'd' as u8, 's' as u8].len() == 6);
        assert(seq!['v' as u8, 'a' as u8, 'r' as u8].len() == 3);
        assert(seq!['l' as u8, 'i' as u8, 's' as u8, 't' as u8].len() == 4);
        assert(seq!['l' as u8, 'e' as u8, 't' as u8].len() == 3);
        assert(seq!['s' as u8, 't' as u8, 'r' as u8, 'u' as u8, 'c' as u8, 't' as u8].len() == 6);
        assert(seq!['e' as u8, 'n' as u8, 'u' as u8, 'm' as u8].len() == 4);
        assert(seq!['f' as u8, 'u' as u8, 'n' as u8, 'c' as u8, 't' as u8, 'i' as u8, 'o' as u8, 'n' as u8].len() == 8);
        assert(seq!['n' as u8, 'o' as u8, 'w' as u8, 'a' as u8, 'r' as u8, 'p' as u8].len() == 6);
        assert(seq!['r' as u8, 'e' as u8, 't' as u8, 'u' as u8, 'r' as u8, 'n' as u8].len() == 6);
        assert(seq!['o' as u8, 'n' as u8, 'f' as u8, 'l' as u8, 'a' as u8, 'g' as u8].len() == 6);
        assert(seq!['o' as u8, 'n' as u8, 'c' as u8, 'l' as u8, 'i' as u8, 'c' as u8, 'k' as u8].len() == 7);
        assert(seq!['o' as u8, 'n' as u8, 'c' as u8, 'l' as u8, 'o' as u8, 'n' as u8, 'e' as u8].len() == 7);
        assert(seq!['o' as u8, 'n' as u8, 'k' as u8, 'e' as u8, 'y' as u8].len() == 5);
        assert(w[0] != seq!['o' as u8, 'n' as u8][0]);
        assert(seq!['o' as u8, 'n' as u8, 'b' as u8, 'a' as u8, 'c' as u8, 'k' as u8, 'd' as u8, 'r' as u8, 'o' as u8, 'p' as u8].len() == 10);
        assert(w[0] != seq!['i' as u8, 'f' as u8][0]);
        assert(seq!['e' as u8, 'l' as u8, 's' as u8, 'e' as u8].len() == 4);
        assert(seq!['w' as u8, 'h' as u8, 'i' as u8, 'l' as u8, 'e' as u8].len() == 5);
        assert(seq!['r' as u8, 'e' as u8, 'p' as u8, 'e' as u8, 'a' as u8, 't' as u8].len() == 6);
        assert(seq!['f' as u8, 'o' as u8, 'r' as u8, 'e' as u8, 'v' as u8, 'e' as u8, 'r' as u8].len() == 7);
        assert(seq!['d' as u8, 'e' as u8, 'l' as u8, 'e' as u8, 't' as u8, 'e' as u8].len() == 6);
        assert(seq!['i' as u8, 'n' as u8, 's' as u8, 'e' as u8, 'r' as u8, 't' as u8].len() == 6);
        assert(w[0] != seq!['a' as u8, 't' as u8][0]);
    }
    assert(spec_keyword(seq!['s' as u8, 'h' as u8, 'o' as u8, 'w' as u8]) == Some(Token::Show)) by {
        let w = seq!['s' as u8, 'h' as u8, 'o' as u8, 'w' as u8];
        assert(w.len() == 4);
        assert(seq!['c' as u8, 'o' as u8, 's' as u8, 't' as u8, 'u' as u8, 'm' as u8, 'e' as u8, 's' as u8].len() == 8);
        assert(seq!['s' as u8, 'o' as u8, 'u' as u8, 'n' as u8, 'd' as u8, 's' as u8].len() == 6);
        assert(seq!['v' as u8, 'a' as u8, 'r' as u8].len() == 3);
        assert(w[0] != seq!['l' as u8, 'i' as u8, 's' as u8, 't' as u8][0]);
        assert(seq!['l' as u8, 'e' as u8, 't' as u8].len() == 3);
        assert(seq!['s' as u8, 't' as u8, 'r' as u8, 'u' as u8, 'c' as u8, 't' as u8].len() == 6);
        assert(w[0] != seq!['e' as u8, 'n' as u8, 'u' as u8, 'm' as u8][0]);
        assert(seq!['f' as u8, 'u' as u8, 'n' as u8, 'c' as u8, 't' as u8, 'i' as u8, 'o' as u8, 'n' as u8].len() == 8);
        assert(seq!['n' as u8, 'o' as u8, 'w' as u8, 'a' as u8, 'r' as u8, 'p' as u8].len() == 6);
        assert(seq!['r' as u8, 'e' as u8, 't' as u8, 'u' as u8, 'r' as u8, 'n' as u8].len() == 6);
        assert(seq!['o' as u8, 'n' as u8, 'f' as u8, 'l' as u8, 'a' as u8, 'g' as u8].len() == 6);
        assert(seq!['o' as u8, 'n' as u8, 'c' as u8, 'l' as u8, 'i' as u8, 'c' as u8, 'k' as u8].len() == 7);
        assert(seq!['o' as u8, 'n' as u8, 'c' as u8, 'l' as u8, 'o' as u8, 'n' as u8, 'e' as u8].len() == 7);
        assert(seq!['o' as u8, 'n' as u8, 'k' as u8, 'e' as u8, 'y' as u8].len() == 5);
        assert(seq!['o' as u8, 'n' as u8].len() == 2);
        assert(seq!['o' as u8, 'n' as u8, 'b' as u8, 'a' as u8, 'c' as u8, 'k' as u8, 'd' as u8, 'r' as u8, 'o' as u8, 'p' as u8].len() == 10);
        assert(seq!['i' as u8, 'f' as u8].len() == 2);
        assert(w[0] != seq!['e' as u8, 'l' as u8, 's' as u8, 'e' as u8][0]);
        assert(seq!['w' as u8, 'h' as u8, 'i' as u8, 'l' as u8, 'e' as u8].len() == 5);
        assert(seq!['r' as u8, 'e' as u8, 'p' as u8, 'e' as u8, 'a' as u8, 't' as u8].len() == 6);
        assert(seq!['f' as u8, 'o' as u8, 'r' as u8, 'e' as u8, 'v' as u8, 'e' as u8, 'r' as u8].len() == 7);
        assert(seq!['d' as u8, 'e' as u8, 'l' as u8, 'e' as u8, 't' as u8, 'e' as u8].len() == 6);
        assert(seq!['i' as u8, 'n' as u8, 's' as u8, 'e' as u8, 'r' as u8, 't' as u8].len() == 6);
        assert(seq!['a' as u8, 't' as u8].len() == 2);
        assert(seq!['t' as u8, 'o' as u8].len() == 2);
    }
    assert(spec_keyword(seq!['h' as u8, 'i' as u8, 'd' as u8, 'e' as u8]) == Some(Token::Hide)) by {
        let w = seq!['h' as u8, 'i' as u8, 'd' as u8, 'e' as u8];
        assert(w.len() == 4);
        assert(seq!['c' as u8, 'o' as u8, 's' as u8, 't' as u8, 'u' as u8, 'm' as u8, 'e' as u8, 's' as u8].len() == 8);
        assert(seq!['s' as u8, 'o' as u8, 'u' as u8, 'n' as u8, 'd' as u8, 's' as u8].len() == 6);
        assert(seq!['v' as u8, 'a' as u8, 'r' as u8].len() == 3);
        assert(w[0] != seq!['l' as u8, 'i' as u8, 's' as u8, 't' as u8][0]);
        assert(seq!['l' as u8, 'e' as u8, 't' as u8].len() == 3);
        assert(seq!['s' as u8, 't' as u8, 'r' as u8, 'u' as u8, 'c' as u8, 't' as u8].len() == 6);
        assert(w[0] != seq!['e' as u8, 'n' as u8, 'u' as u8, 'm' as u8][0]);
        assert(seq!['f' as u8, 'u' as u8, 'n' as u8, 'c' as u8, 't' as u8, 'i' as u8, 'o' as u8, 'n' as u8].len() == 8);
        assert(seq!['n' as u8, 'o' as u8, 'w' as u8, 'a' as u8, 'r' as u8, 'p' as u8].len() == 6);
        assert(seq!['r' as u8, 'e' as u8, 't' as u8, 'u' as u8, 'r' as u8, 'n' as u8].len() == 6);
        assert(seq!['o' as u8, 'n' as u8, 'f' as u8, 'l' as u8, 'a' as u8, 'g' as u8].len() == 6);
        assert(seq!['o' as u8, 'n' as u8, 'c' as u8, 'l' as u8, 'i' as u8, 'c' as u8, 'k' as u8].len() == 7);
        assert(seq!['o' as u8, 'n' as u8, 'c' as u8, 'l' as u8, 'o' as u8, 'n' as u8, 'e' as u8].len() == 7);
        assert(seq!['o' as u8, 'n' as u8, 'k' as u8, 'e' as u8, 'y' as u8].len() == 5);
        assert(seq!['o' as u8, 'n' as u8].len() == 2);
        assert(seq!['o' as u8, 'n' as u8, 'b' as u8, 'a' as u8, 'c' as u8, 'k' as u8, 'd' as u8, 'r' as u8, 'o' as u8, 'p' as u8].len() == 10);
        assert(seq!['i' as u8, 'f' as u8].len() == 2);
        assert(w[0] != seq!['e' as u8, 'l' as u8, 's' as u8, 'e' as u8][0]);
        assert(seq!['w' as u8, 'h' as u8, 'i' as u8, 'l' as u8, 'e' as u8].len() == 5);
        assert(seq!['r' as u8, 'e' as u8, 'p' as u8, 'e' as u8, 'a' as u8, 't' as u8].len() == 6);
        assert(seq!['f' as u8, 'o' as u8, 'r' as u8, 'e' as u8, 'v' as u8, 'e' as u8, 'r' as u8].len() == 7);
        assert(seq!['d' as u8, 'e' as u8, 'l' as u8, 'e' as u8, 't' as u8, 'e' as u8].len() == 6);
        assert(seq!['i' as u8, 'n' as u8, 's' as u8, 'e' as u8, 'r' as u8, 't' as u8].len() == 6);
        assert(seq!['a' as u8, 't' as u8].len() == 2);
        assert(seq!['t' as u8, 'o' as u8].len() == 2);
        assert(w[0] != seq!['s' as u8, 'h' as u8, 'o' as u8, 'w' as u8][0]);
    }
    assert(spec_keyword(seq!['t' as u8, 'r' as u8, 'u' as u8, 'e' as u8]) == Some(Token::True)) by {
        let w = seq!['t' as u8, 'r' as u8, 'u' as u8, 'e' as u8];
        assert(w.len() == 4);
        assert(seq!['c' as u8, 'o' as u8, 's' as u8, 't' as u8, 'u' as u8, 'm' as u8, 'e' as u8, 's' as u8].len() == 8);
        assert(seq!['s' as u8, 'o' as u8, 'u' as u8, 'n' as u8, 'd' as u8, 's' as u8].len() == 6);
        assert(seq!['v' as u8, 'a' as u8, 'r' as u8].len() == 3);
        assert(w[0] != seq!['l' as u8, 'i' as u8, 's' as u8, 't' as u8][0]);
        assert(seq!['l' as u8, 'e' as u8, 't' as u8].len() == 3);
        assert(seq!['s' as u8, 't' as u8, 'r' as u8, 'u' as u8, 'c' as u8, 't' as u8].len() == 6);
        assert(w[0] != seq!['e' as u8, 'n' as u8, 'u' as u8, 'm' as u8][0]);
        assert(seq!['f' as u8, 'u' as u8, 'n' as u8, 'c' as u8, 't' as u8, 'i' as u8, 'o' as u8, 'n' as u8].len() == 8);
        assert(seq!['n' as u8, 'o' as u8, 'w' as u8, 'a' as u8, 'r' as u8, 'p' as u8].len() == 6);
        assert(seq!['r' as u8, 'e' as u8, 't' as u8, 'u' as u8, 'r' as u8, 'n' as u8].len() == 6);
        assert(seq!['o' as u8, 'n' as u8, 'f' as u8, 'l' as u8, 'a' as u8, 'g' as u8].len() == 6);
        assert(seq!['o' as u8, 'n' as u8, 'c' as u8, 'l' as u8, 'i' as u8, 'c' as u8, 'k' as u8].len() == 7);
        assert(seq!['o' as u8, 'n' as u8, 'c' as u8, 'l' as u8, 'o' as u8, 'n' as u8, 'e' as u8].len() == 7);
        assert(seq!['o' as u8, 'n' as u8, 'k' as u8, 'e' as u8, 'y' as u8].len() == 5);
        assert(seq!['o' as u8, 'n' as u8].len() == 2);
        assert(seq!['o' as u8, 'n' as u8, 'b' as u8, 'a' as u8, 'c' as u8, 'k' as u8, 'd' as u8, 'r' as u8, 'o' as u8, 'p' as u8].len() == 10);
        assert(seq!['i' as u8, 'f' as u8].len() == 2);
        assert(w[0] != seq!['e' as u8, 'l' as u8, 's' as u8, 'e' as u8][0]);
        assert(seq!['w' as u8, 'h' as u8, 'i' as u8, 'l' as u8, 'e' as u8].len() == 5);
        assert(seq!['r' as u8, 'e' as u8, 'p' as u8, 'e' as u8, 'a' as u8, 't' as u8].len() == 6);
        assert(seq!['f' as u8, 'o' as u8, 'r' as u8, 'e' as u8, 'v' as u8, 'e' as u8, 'r' as u8].len() == 7);
        assert(seq!['d' as u8, 'e' as u8, 'l' as u8, 'e' as u8, 't' as u8, 'e' as u8].len() == 6);
        assert(seq!['i' as u8, 'n' as u8, 's' as u8, 'e' as u8, 'r' as u8, 't' as u8].len() == 6);
        assert(seq!['a' as u8, 't' as u8].len() == 2);
        assert(seq!['t' as u8, 'o' as u8].len() == 2);
        assert(w[0] != seq!['s' as u8, 'h' as u8, 'o' as u8, 'w' as u8][0]);
        assert(w[0] != seq!['h' as u8, 'i' as u8, 'd' as u8, 'e' as u8][0]);
    }
    assert(spec_keyword(seq!['f' as u8, 'a' as u8, 'l' as u8, 's' as u8, 'e' as u8]) == Some(Token::False)) by {
        let w = seq!['f' as u8, 'a' as u8, 'l' as u8, 's' as u8, 'e' as u8];
        assert(w.len() == 5);
        assert(seq!['c' as u8, 'o' as u8, 's' as u8, 't' as u8, 'u' as u8, 'm' as u8, 'e' as u8, 's' as u8].len() == 8);
        assert(seq!['s' as u8, 'o' as u8, 'u' as u8, 'n' as u8, 'd' as u8, 's' as u8].len() == 6);
        assert(seq!['v' as u8, 'a' as u8, 'r' as u8].len() == 3);
        assert(seq!['l' as u8, 'i' as u8, 's' as u8, 't' as u8].len() == 4);
        assert(seq!['l' as u8, 'e' as u8, 't' as u8].len() == 3);
        assert(seq!['s' as u8, 't' as u8, 'r' as u8, 'u' as u8, 'c' as u8, 't' as u8].len() == 6);
        assert(seq!['e' as u8, 'n' as u8, 'u' as u8, 'm' as u8].len() == 4);
        assert(seq!['f' as u8, 'u' as u8, 'n' as u8, 'c' as u8, 't' as u8, 'i' as u8, 'o' as u8, 'n' as u8].len() == 8);
        assert(seq!['n' as u8, 'o' as u8, 'w' as u8, 'a' as u8, 'r' as u8, 'p' as u8].len() == 6);
        assert(seq!['r' as u8, 'e' as u8, 't' as u8, 'u' as u8, 'r' as u8, 'n' as u8].len() == 6);
        assert(seq!['o' as u8, 'n' as u8, 'f' as u8, 'l' as u8, 'a' as u8, 'g' as u8].len() == 6);
        assert(seq!['o' as u8, 'n' as u8, 'c' as u8, 'l' as u8, 'i' as u8, 'c' as u8, 'k' as u8].len() == 7);
        assert(seq!['o' as u8, 'n' as u8, 'c' as u8, 'l' as u8, 'o' as u8, 'n' as u8, 'e' as u8].len() == 7);
        assert(w[0] != seq!['o' as u8, 'n' as u8, 'k' as u8, 'e' as u8, 'y' as u8][0]);
        assert(seq!['o' as u8, 'n' as u8].len() == 2);
        assert(seq!['o' as u8, 'n' as u8, 'b' as u8, 'a' as u8, 'c' as u8, 'k' as u8, 'd' as u8, 'r' as u8, 'o' as u8, 'p' as u8].len() == 10);
        assert(seq!['i' as u8, 'f' as u8].len() == 2);
        assert(seq!['e' as u8, 'l' as u8, 's' as u8, 'e' as u8].len() == 4);
        assert(w[0] != seq!['w' as u8, 'h' as u8, 'i' as u8, 'l' as u8, 'e' as u8][0]);
        assert(seq!['r' as u8, 'e' as u8, 'p' as u8, 'e' as u8, 'a' as u8, 't' as u8].len() == 6);
        assert(seq!['f' as u8, 'o' as u8, 'r' as u8, 'e' as u8, 'v' as u8, 'e' as u8, 'r' as u8].len() == 7);
        assert(seq!['d' as u8, 'e' as u8, 'l' as u8, 'e' as u8, 't' as u8, 'e' as u8].len() == 6);
        assert(seq!['i' as u8, 'n' as u8, 's' as u8, 'e' as u8, 'r' as u8, 't' as u8].len() == 6);
        assert(seq!['a' as u8, 't' as u8].len() == 2);
        assert(seq!['t' as u8, 'o' as u8].len() == 2);
        assert(seq!['s' as u8, 'h' as u8, 'o' as u8, 'w' as u8].len() == 4);
        assert(seq!['h' as u8, 'i' as u8, 'd' as u8, 'e' as u8].len() == 4);
        assert(seq!['t' as u8, 'r' as u8, 'u' as u8, 'e' as u8].len() == 4);
    }
    assert(spec_keyword(seq!['d' as u8, 'i' as u8, 'v' as u8]) == Some(Token::Div)) by {
        let w = seq!['d' as u8, 'i' as u8, 'v' as u8];
        assert(w.len() == 3);
        assert(seq!['c' as u8, 'o' as u8, 's' as u8, 't' as u8, 'u' as u8, 'm' as u8, 'e' as u8, 's' as u8].len() == 8);
        assert(seq!['s' as u8, 'o' as u8, 'u' as u8, 'n' as u8, 'd' as u8, 's' as u8].len() == 6);
        assert(w[0] != seq!['v' as u8, 'a' as u8, 'r' as u8][0]);
        assert(seq!['l' as u8, 'i' as u8, 's' as u8, 't' as u8].len() == 4);
        assert(w[0] != seq!['l' as u8, 'e' as u8, 't' as u8][0]);
        assert(seq!['s' as u8, 't' as u8, 'r' as u8, 'u' as u8, 'c' as u8, 't' as u8].len() == 6);
        assert(seq!['e' as u8, 'n' as u8, 'u' as u8, 'm' as u8].len() == 4);
        assert(seq!['f' as u8, 'u' as u8, 'n' as u8, 'c' as u8, 't' as u8, 'i' as u8, 'o' as u8, 'n' as u8].len() == 8);
        assert(seq!['n' as u8, 'o' as u8, 'w' as u8, 'a' as u8, 'r' as u8, 'p' as u8].len() == 6);
        assert(seq!['r' as u8, 'e' as u8, 't' as u8, 'u' as u8, 'r' as u8, 'n' as u8].len() == 6);
        assert(seq!['o' as u8, 'n' as u8, 'f' as u8, 'l' as u8, 'a' as u8, 'g' as u8].len() == 6);
        assert(seq!['o' as u8, 'n' as u8, 'c' as u8, 'l' as u8, 'i' as u8, 'c' as u8, 'k' as u8].len() == 7);
        assert(seq!['o' as u8, 'n' as u8, 'c' as u8, 'l' as u8, 'o' as u8, 'n' as u8, 'e' as u8].len() == 7);
        assert(seq!['o' as u8, 'n' as u8, 'k' as u8, 'e' as u8, 'y' as u8].len() == 5);
        assert(seq!['o' as u8, 'n' as u8].len() == 2);
        assert(seq!['o' as u8, 'n' as u8, 'b' as u8, 'a' as u8, 'c' as u8, 'k' as u8, 'd' as u8, 'r' as u8, 'o' as u8, 'p' as u8].len() == 10);
        assert(seq!['i' as u8, 'f' as u8].len() == 2);
        assert(seq!['e' as u8, 'l' as u8, 's' as u8, 'e' as u8].len() == 4);
        assert(seq!['w' as u8, 'h' as u8, 'i' as u8, 'l' as u8, 'e' as u8].len() == 5);
        assert(seq!['r' as u8, 'e' as u8, 'p' as u8, 'e' as u8, 'a' as u8, 't' as u8].len() == 6);
        assert(seq!['f' as u8, 'o' as u8, 'r' as u8, 'e' as u8, 'v' as u8, 'e' as u8, 'r' as u8].len() == 7);
        assert(seq!['d' as u8, 'e' as u8, 'l' as u8, 'e' as u8, 't' as u8, 'e' as u8].len() == 6);
        assert(seq!['i' as u8, 'n' as u8, 's' as u8, 'e' as u8, 'r' as u8, 't' as u8].len() == 6);
        assert(seq!['a' as u8, 't' as u8].len() == 2);
        assert(seq!['t' as u8, 'o' as u8].len() == 2);
        assert(seq!['s' as u8, 'h' as u8, 'o' as u8, 'w' as u8].len() == 4);
        assert(seq!['h' as u8, 'i' as u8, 'd' as u8, 'e' as u8].len() == 4);
        assert(seq!['t' as u8, 'r' as u8, 'u' as u8, 'e' as u8].len() == 4);
        assert(seq!['f' as u8, 'a' as u8, 'l' as u8, 's' as u8, 'e' as u8].len() == 5);
    }
    assert(spec_keyword(seq!['i' as u8, 'n' as u8]) == Some(Token::In)) by {
        let w = seq!['i' as u8, 'n' as u8];
        assert(w.len() == 2);
        assert(seq!['c' as u8, 'o' as u8, 's' as u8, 't' as u8, 'u' as u8, 'm' as u8, 'e' as u8, 's' as u8].len() == 8);
        assert(seq!['s' as u8, 'o' as u8, 'u' as u8, 'n' as u8, 'd' as u8, 's' as u8].len() == 6);
        assert(seq!['v' as u8, 'a' as u8, 'r' as u8].len() == 3);
        assert(seq!['l' as u8, 'i' as u8, 's' as u8, 't' as u8].len() == 4);
        assert(seq!['l' as u8, 'e' as u8, 't' as u8].len() == 3);
        assert(seq!['s' as u8, 't' as u8, 'r' as u8, 'u' as u8, 'c' as u8, 't' as u8].len() == 6);
        assert(seq!['e' as u8, 'n' as u8, 'u' as u8, 'm' as u8].len() == 4);
        assert(seq!['f' as u8, 'u' as u8, 'n' as u8, 'c' as u8, 't' as u8, 'i' as u8, 'o' as u8, 'n' as u8].len() == 8);
        assert(seq!['n' as u8, 'o' as u8, 'w' as u8, 'a' as u8, 'r' as u8, 'p' as u8].len() == 6);
        assert(seq!['r' as u8, 'e' as u8, 't' as u8, 'u' as u8, 'r' as u8, 'n' as u8].len() == 6);
        assert(seq!['o' as u8, 'n' as u8, 'f' as u8, 'l' as u8, 'a' as u8, 'g' as u8].len() == 6);
        assert(seq!['o' as u8, 'n' as u8, 'c' as u8, 'l' as u8, 'i' as u8, 'c' as u8, 'k' as u8].len() == 7);
        assert(seq!['o' as u8, 'n' as u8, 'c' as u8, 'l' as u8, 'o' as u8, 'n' as u8, 'e' as u8].len() == 7);
        assert(seq!['o' as u8, 'n' as u8, 'k' as u8, 'e' as u8, 'y' as u8].len() == 5);
        assert(w[0] != seq!['o' as u8, 'n' as u8][0]);
        assert(seq!['o' as u8, 'n' as u8, 'b' as u8, 'a' as u8, 'c' as u8, 'k' as u8, 'd' as u8, 'r' as u8, 'o' as u8, 'p' as u8].len() == 10);
        assert(w[1] != seq!['i' as u8, 'f' as u8][1]);
        assert(seq!['e' as u8, 'l' as u8, 's' as u8, 'e' as u8].len() == 4);
        assert(seq!['w' as u8, 'h' as u8, 'i' as u8, 'l' as u8, 'e' as u8].len() == 5);
        assert(seq!['r' as u8, 'e' as u8, 'p' as u8, 'e' as u8, 'a' as u8, 't' as u8].len() == 6);
        assert(seq!['f' as u8, 'o' as u8, 'r' as u8, 'e' as u8, 'v' as u8, 'e' as u8, 'r' as u8].len() == 7);
        assert(seq!['d' as u8, 'e' as u8, 'l' as u8, 'e' as u8, 't' as u8, 'e' as u8].len() == 6);
        assert(seq!['i' as u8, 'n' as u8, 's' as u8, 'e' as u8, 'r' as u8, 't' as u8].len() == 6);
        assert(w[0] != seq!['a' as u8, 't' as u8][0]);
        assert(w[0] != seq!['t' as u8, 'o' as u8][0]);
        assert(seq!['s' as u8, 'h' as u8, 'o' as u8, 'w' as u8].len() == 4);
        assert(seq!['h' as u8, 'i' as u8, 'd' as u8, 'e' as u8].len() == 4);
        assert(seq!['t' as u8, 'r' as u8, 'u' as u8, 'e' as u8].len() == 4);
        assert(seq!['f' as u8, 'a' as u8, 'l' as u8, 's' as u8, 'e' as u8].len() == 5);
        assert(seq!['d' as u8, 'i' as u8, 'v' as u8].len() == 3);
    }
    assert(spec_keyword(seq!['r' as u8, 'o' as u8, 'u' as u8, 'n' as u8, 'd' as u8]) == Some(Token::Round)) by {
        let w = seq!['r' as u8, 'o' as u8, 'u' as u8, 'n' as u8, 'd' as u8];
        assert(w.len() == 5);
        assert(seq!['c' as u8, 'o' as u8, 's' as u8, 't' as u8, 'u' as u8, 'm' as u8, 'e' as u8, 's' as u8].len() == 8);
        assert(seq!['s' as u8, 'o' as u8, 'u' as u8, 'n' as u8, 'd' as u8, 's' as u8].len() == 6);
        assert(seq!['v' as u8, 'a' as u8, 'r' as u8].len() == 3);
        assert(seq!['l' as u8, 'i' as u8, 's' as u8, 't' as u8].len() == 4);
        assert(seq!['l' as u8, 'e' as u8, 't' as u8].len() == 3);
        assert(seq!['s' as u8, 't' as u8, 'r' as u8, 'u' as u8, 'c' as u8, 't' as u8].len() == 6);
        assert(seq!['e' as u8, 'n' as u8, 'u' as u8, 'm' as u8].len() == 4);
        assert(seq!['f' as u8, 'u' as u8, 'n' as u8, 'c' as u8, 't' as u8, 'i' as u8, 'o' as u8, 'n' as u8].len() == 8);
        assert(seq!['n' as u8, 'o' as u8, 'w' as u8, 'a' as u8, 'r' as u8, 'p' as u8].len() == 6);
        assert(seq!['r' as u8, 'e' as u8, 't' as u8, 'u' as u8, 'r' as u8, 'n' as u8].len() == 6);
        assert(seq!['o' as u8, 'n' as u8, 'f' as u8, 'l' as u8, 'a' as u8, 'g' as u8].len() == 6);
        assert(seq!['o' as u8, 'n' as u8, 'c' as u8, 'l' as u8, 'i' as u8, 'c' as u8, 'k' as u8].len() == 7);
        assert(seq!['o' as u8, 'n' as u8, 'c' as u8, 'l' as u8, 'o' as u8, 'n' as u8, 'e' as u8].len() == 7);
        assert(w[0] != seq!['o' as u8, 'n' as u8, 'k' as u8, 'e' as u8, 'y' as u8][0]);
        assert(seq!['o' as u8, 'n' as u8].len() == 2);
        assert(seq!['o' as u8, 'n' as u8, 'b' as u8, 'a' as u8, 'c' as u8, 'k' as u8, 'd' as u8, 'r' as u8, 'o' as u8, 'p' as u8].len() == 10);
        assert(seq!['i' as u8, 'f' as u8].len() == 2);
        assert(seq!['e' as u8, 'l' as u8, 's' as u8, 'e' as u8].len() == 4);
        assert(w[0] != seq!['w' as u8, 'h' as u8, 'i' as u8, 'l' as u8, 'e' as u8][0]);
        assert(seq!['r' as u8, 'e' as u8, 'p' as u8, 'e' as u8, 'a' as u8, 't' as u8].len() == 6);
        assert(seq!['f' as u8, 'o' as u8, 'r' as u8, 'e' as u8, 'v' as u8, 'e' as u8, 'r' as u8].len() == 7);
        assert(seq!['d' as u8, 'e' as u8, 'l' as u8, 'e' as u8, 't' as u8, 'e' as u8].len() == 6);
        assert(seq!['i' as u8, 'n' as u8, 's' as u8, 'e' as u8, 'r' as u8, 't' as u8].len() == 6);
        assert(seq!['a' as u8, 't' as u8].len() == 2);
        assert(seq!['t' as u8, 'o' as u8].len() == 2);
        assert(seq!['s' as u8, 'h' as u8, 'o' as u8, 'w' as u8].len() == 4);
        assert(seq!['h' as u8, 'i' as u8, 'd' as u8, 'e' as u8].len() == 4);
        assert(seq!['t' as u8, 'r' as u8, 'u' as u8, 'e' as u8].len() == 4);
        assert(w[0] != seq!['f' as u8, 'a' as u8, 'l' as u8, 's' as u8, 'e' as u8][0]);
        assert(seq!['d' as u8, 'i' as u8, 'v' as u8].len() == 3);
        assert(seq!['i' as u8, 'n' as u8].len() == 2);
    }
    assert(spec_keyword(seq!['a' as u8, 'b' as u8, 's' as u8]) == Some(Token::Abs)) by {
        let w = seq!['a' as u8, 'b' as u8, 's' as u8];
        assert(w.len() == 3);
        assert(seq!['c' as u8, 'o' as u8, 's' as u8, 't' as u8, 'u' as u8, 'm' as u8, 'e' as u8, 's' as u8].len() == 8);
        assert(seq!['s' as u8, 'o' as u8, 'u' as u8, 'n' as u8, 'd' as u8, 's' as u8].len() == 6);
        assert(w[0] != seq!['v' as u8, 'a' as u8, 'r' as u8][0]);
        assert(seq!['l' as u8, 'i' as u8, 's' as u8, 't' as u8].len() == 4);
        assert(w[0] != seq!['l' as u8, 'e' as u8, 't' as u8][0]);
        assert(seq!['s' as u8, 't' as u8, 'r' as u8, 'u' as u8, 'c' as u8, 't' as u8].len() == 6);
        assert(seq!['e' as u8, 'n' as u8, 'u' as u8, 'm' as u8].len() == 4);
        assert(seq!['f' as u8, 'u' as u8, 'n' as u8, 'c' as u8, 't' as u8, 'i' as u8, 'o' as u8, 'n' as u8].len() == 8);
        assert(seq!['n' as u8, 'o' as u8, 'w' as u8, 'a' as u8, 'r' as u8, 'p' as u8].len() == 6);
        assert(seq!['r' as u8, 'e' as u8, 't' as u8, 'u' as u8, 'r' as u8, 'n' as u8].len() == 6);
        assert(seq!['o' as u8, 'n' as u8, 'f' as u8, 'l' as u8, 'a' as u8, 'g' as u8].len() == 6);
        assert(seq!['o' as u8, 'n' as u8, 'c' as u8, 'l' as u8, 'i' as u8, 'c' as u8, 'k' as u8].len() == 7);
        assert(seq!['o' as u8, 'n' as u8, 'c' as u8, 'l' as u8, 'o' as u8, 'n' as u8, 'e' as u8].len() == 7);
        assert(seq!['o' as u8, 'n' as u8, 'k' as u8, 'e' as u8, 'y' as u8].len() == 5);
        assert(seq!['o' as u8, 'n' as u8].len() == 2);
        assert(seq!['o' as u8, 'n' as u8, 'b' as u8, 'a' as u8, 'c' as u8, 'k' as u8, 'd' as u8, 'r' as u8, 'o' as u8, 'p' as u8].len() == 10);
        assert(seq!['i' as u8, 'f' as u8].len() == 2);
        assert(seq!['e' as u8, 'l' as u8, 's' as u8, 'e' as u8].len() == 4);
        assert(seq!['w' as u8, 'h' as u8, 'i' as u8, 'l' as u8, 'e' as u8].len() == 5);
        assert(seq!['r' as u8, 'e' as u8, 'p' as u8, 'e' as u8, 'a' as u8, 't' as u8].len() == 6);
        assert(seq!['f' as u8, 'o' as u8, 'r' as u8, 'e' as u8, 'v' as u8, 'e' as u8, 'r' as u8].len() == 7);
        assert(seq!['d' as u8, 'e' as u8, 'l' as u8, 'e' as u8, 't' as u8, 'e' as u8].len() == 6);
        assert(seq!['i' as u8, 'n' as u8, 's' as u8, 'e' as u8, 'r' as u8, 't' as u8].len() == 6);
        assert(seq!['a' as u8, 't' as u8].len() == 2);
        assert(seq!['t' as u8, 'o' as u8].len() == 2);
        assert(seq!['s' as u8, 'h' as u8, 'o' as u8, 'w' as u8].len() == 4);
        assert(seq!['h' as u8, 'i' as u8, 'd' as u8, 'e' as u8].len() == 4);
        assert(seq!['t' as u8, 'r' as u8, 'u' as u8, 'e' as u8].len() == 4);
        assert(seq!['f' as u8, 'a' as u8, 'l' as u8, 's' as u8, 'e' as u8].len() == 5);
        assert(w[0] != seq!['d' as u8, 'i' as u8, 'v' as u8][0]);
        assert(seq!['i' as u8, 'n' as u8].len() == 2);
        assert(seq!['r' as u8, 'o' as u8, 'u' as u8, 'n' as u8, 'd' as u8].len() == 5);
    }
    assert(spec_keyword(seq!['f' as u8, 'l' as u8, 'o' as u8, 'o' as u8, 'r' as u8]) == Some(Token::Floor)) by {
        let w = seq!['f' as u8, 'l' as u8, 'o' as u8, 'o' as u8, 'r' as u8];
        assert(w.len() == 5);
        assert(seq!['c' as u8, 'o' as u8, 's' as u8, 't' as u8, 'u' as u8, 'm' as u8, 'e' as u8, 's' as u8].len() == 8);
        assert(seq!['s' as u8, 'o' as u8, 'u' as u8, 'n' as u8, 'd' as u8, 's' as u8].len() == 6);
        assert(seq!['v' as u8, 'a' as u8, 'r' as u8].len() == 3);
        assert(seq!['l' as u8, 'i' as u8, 's' as u8, 't' as u8].len() == 4);
        assert(seq!['l' as u8, 'e' as u8, 't' as u8].len() == 3);
        assert(seq!['s' as u8, 't' as u8, 'r' as u8, 'u' as u8, 'c' as u8, 't' as u8].len() == 6);
        assert(seq!['e' as u8, 'n' as u8, 'u' as u8, 'm' as u8].len() == 4);
        assert(seq!['f' as u8, 'u' as u8, 'n' as u8, 'c' as u8, 't' as u8, 'i' as u8, 'o' as u8, 'n' as u8].len() == 8);
        assert(seq!['n' as u8, 'o' as u8, 'w' as u8, 'a' as u8, 'r' as u8, 'p' as u8].len() == 6);
        assert(seq!['r' as u8, 'e' as u8, 't' as u8, 'u' as u8, 'r' as u8, 'n' as u8].len() == 6);
        assert(seq!['o' as u8, 'n' as u8, 'f' as u8, 'l' as u8, 'a' as u8, 'g' as u8].len() == 6);
        assert(seq!['o' as u8, 'n' as u8, 'c' as u8, 'l' as u8, 'i' as u8, 'c' as u8, 'k' as u8].len() == 7);
        assert(seq!['o' as u8, 'n' as u8, 'c' as u8, 'l' as u8, 'o' as u8, 'n' as u8, 'e' as u8].len() == 7);
        assert(w[0] != seq!['o' as u8, 'n' as u8, 'k' as u8, 'e' as u8, 'y' as u8][0]);
        assert(seq!['o' as u8, 'n' as u8].len() == 2);
        assert(seq!['o' as u8, 'n' as u8, 'b' as u8, 'a' as u8, 'c' as u8, 'k' as u8, 'd' as u8, 'r' as u8, 'o' as u8, 'p' as u8].len() == 10);
        assert(seq!['i' as u8, 'f' as u8].len() == 2);
        assert(seq!['e' as u8, 'l' as u8, 's' as u8, 'e' as u8].len() == 4);
        assert(w[0] != seq!['w' as u8, 'h' as u8, 'i' as u8, 'l' as u8, 'e' as u8][0]);
        assert(seq!['r' as u8, 'e' as u8, 'p' as u8, 'e' as u8, 'a' as u8, 't' as u8].len() == 6);
        assert(seq!['f' as u8, 'o' as u8, 'r' as u8, 'e' as u8, 'v' as u8, 'e' as u8, 'r' as u8].len() == 7);
        assert(seq!['d' as u8, 'e' as u8, 'l' as u8, 'e' as u8, 't' as u8, 'e' as u8].len() == 6);
        assert(seq!['i' as u8, 'n' as u8, 's' as u8, 'e' as u8, 'r' as u8, 't' as u8].len() == 6);
        assert(seq!['a' as u8, 't' as u8].len() == 2);
        assert(seq!['t' as u8, 'o' as u8].len() == 2);
        assert(seq!['s' as u8, 'h' as u8, 'o' as u8, 'w' as u8].len() == 4);
        assert(seq!['h' as u8, 'i' as u8, 'd' as u8, 'e' as u8].len() == 4);
        assert(seq!['t' as u8, 'r' as u8, 'u' as u8, 'e' as u8].len() == 4);
        assert(w[1] != seq!['f' as u8, 'a' as u8, 'l' as u8, 's' as u8, 'e' as u8][1]);
        assert(seq!['d' as u8, 'i' as u8, 'v' as u8].len() == 3);
        assert(seq!['i' as u8, 'n' as u8].len() == 2);
        assert(w[0] != seq!['r' as u8, 'o' as u8, 'u' as u8, 'n' as u8, 'd' as u8][0]);
        assert(seq!['a' as u8, 'b' as u8, 's' as u8].len() == 3);
    }
    assert(spec_keyword(seq!['c' as u8, 'e' as u8, 'i' as u8, 'l' as u8]) == Some(Token::Ceil)) by {
        let w = seq!['c' as u8, 'e' as u8, 'i' as u8, 'l' as u8];
        assert(w.len() == 4);
        assert(seq!['c' as u8, 'o' as u8, 's' as u8, 't' as u8, 'u' as u8, 'm' as u8, 'e' as u8, 's' as u8].len() == 8);
        assert(seq!['s' as u8, 'o' as u8, 'u' as u8, 'n' as u8, 'd' as u8, 's' as u8].len() == 6);
        assert(seq!['v' as u8, 'a' as u8, 'r' as u8].len() == 3);
        assert(w[0] != seq!['l' as u8, 'i' as u8, 's' as u8, 't' as u8][0]);
        assert(seq!['l' as u8, 'e' as u8, 't' as u8].len() == 3);
        assert(seq!['s' as u8, 't' as u8, 'r' as u8, 'u' as u8, 'c' as u8, 't' as u8].len() == 6);
        assert(w[0] != seq!['e' as u8, 'n' as u8, 'u' as u8, 'm' as u8][0]);
        assert(seq!['f' as u8, 'u' as u8, 'n' as u8, 'c' as u8, 't' as u8, 'i' as u8, 'o' as u8, 'n' as u8].len() == 8);
        assert(seq!['n' as u8, 'o' as u8, 'w' as u8, 'a' as u8, 'r' as u8, 'p' as u8].len() == 6);
        assert(seq!['r' as u8, 'e' as u8, 't' as u8, 'u' as u8, 'r' as u8, 'n' as u8].len() == 6);
        assert(seq!['o' as u8, 'n' as u8, 'f' as u8, 'l' as u8, 'a' as u8, 'g' as u8].len() == 6);
        assert(seq!['o' as u8, 'n' as u8, 'c' as u8, 'l' as u8, 'i' as u8, 'c' as u8, 'k' as u8].len() == 7);
        assert(seq!['o' as u8, 'n' as u8, 'c' as u8, 'l' as u8, 'o' as u8, 'n' as u8, 'e' as u8].len() == 7);
        assert(seq!['o' as u8, 'n' as u8, 'k' as u8, 'e' as u8, 'y' as u8].len() == 5);
        assert(seq!['o' as u8, 'n' as u8].len() == 2);
        assert(seq!['o' as u8, 'n' as u8, 'b' as u8, 'a' as u8, 'c' as u8, 'k' as u8, 'd' as u8, 'r' as u8, 'o' as u8, 'p' as u8].len() == 10);
        assert(seq!['i' as u8, 'f' as u8].len() == 2);
        assert(w[0] != seq!['e' as u8, 'l' as u8, 's' as u8, 'e' as u8][0]);
        assert(seq!['w' as u8, 'h' as u8, 'i' as u8, 'l' as u8, 'e' as u8].len() == 5);
        assert(seq!['r' as u8, 'e' as u8, 'p' as u8, 'e' as u8, 'a' as u8, 't' as u8].len() == 6);
        assert(seq!['f' as u8, 'o' as u8, 'r' as u8, 'e' as u8, 'v' as u8, 'e' as u8, 'r' as u8].len() == 7);
        assert(seq!['d' as u8, 'e' as u8, 'l' as u8, 'e' as u8, 't' as u8, 'e' as u8].len() == 6);
        assert(seq!['i' as u8, 'n' as u8, 's' as u8, 'e' as u8, 'r' as u8, 't' as u8].len() == 6);
        assert(seq!['a' as u8, 't' as u8].len() == 2);
        assert(seq!['t' as u8, 'o' as u8].len() == 2);
        assert(w[0] != seq!['s' as u8, 'h' as u8, 'o' as u8, 'w' as u8][0]);
        assert(w[0] != seq!['h' as u8, 'i' as u8, 'd' as u8, 'e' as u8][0]);
        assert(w[0] != seq!['t' as u8, 'r' as u8, 'u' as u8, 'e' as u8][0]);
        assert(seq!['f' as u8, 'a' as u8, 'l' as u8, 's' as u8, 'e' as u8].len() == 5);
        assert(seq!['d' as u8, 'i' as u8, 'v' as u8].len() == 3);
        assert(seq!['i' as u8, 'n' as u8].len() == 2);
        assert(seq!['r' as u8, 'o' as u8, 'u' as u8, 'n' as u8, 'd' as u8].len() == 5);
        assert(seq!['a' as u8, 'b' as u8, 's' as u8].len() == 3);
        assert(seq!['f' as u8, 'l' as u8, 'o' as u8, 'o' as u8, 'r' as u8].len() == 5);
    }
    assert(spec_keyword(seq!['s' as u8, 'q' as u8, 'r' as u8, 't' as u8]) == Some(Token::Sqrt)) by {
        let w = seq!['s' as u8, 'q' as u8, 'r' as u8, 't' as u8];
        assert(w.len() == 4);
        assert(seq!['c' as u8, 'o' as u8, 's' as u8, 't' as u8, 'u' as u8, 'm' as u8, 'e' as u8, 's' as u8].len() == 8);
        assert(seq!['s' as u8, 'o' as u8, 'u' as u8, 'n' as u8, 'd' as u8, 's' as u8].len() == 6);
        assert(seq!['v' as u8, 'a' as u8, 'r' as u8].len() == 3);
        assert(w[0] != seq!['l' as u8, 'i' as u8, 's' as u8, 't' as u8][0]);
        assert(seq!['l' as u8, 'e' as u8, 't' as u8].len() == 3);
        assert(seq!['s' as u8, 't' as u8, 'r' as u8, 'u' as u8, 'c' as u8, 't' as u8].len() == 6);
        assert(w[0] != seq!['e' as u8, 'n' as u8, 'u' as u8, 'm' as u8][0]);
        assert(seq!['f' as u8, 'u' as u8, 'n' as u8, 'c' as u8, 't' as u8, 'i' as u8, 'o' as u8, 'n' as u8].len() == 8);
        assert(seq!['n' as u8, 'o' as u8, 'w' as u8, 'a' as u8, 'r' as u8, 'p' as u8].len() == 6);
        assert(seq!['r' as u8, 'e' as u8, 't' as u8, 'u' as u8, 'r' as u8, 'n' as u8].len() == 6);
        assert(seq!['o' as u8, 'n' as u8, 'f' as u8, 'l' as u8, 'a' as u8, 'g' as u8].len() == 6);
        assert(seq!['o' as u8, 'n' as u8, 'c' as u8, 'l' as u8, 'i' as u8, 'c' as u8, 'k' as u8].len() == 7);
        assert(seq!['o' as u8, 'n' as u8, 'c' as u8, 'l' as u8, 'o' as u8, 'n' as u8, 'e' as u8].len() == 7);
        assert(seq!['o' as u8, 'n' as u8, 'k' as u8, 'e' as u8, 'y' as u8].len() == 5);
        assert(seq!['o' as u8, 'n' as u8].len() == 2);
        assert(seq!['o' as u8, 'n' as u8, 'b' as u8, 'a' as u8, 'c' as u8, 'k' as u8, 'd' as u8, 'r' as u8, 'o' as u8, 'p' as u8].len() == 10);
        assert(seq!['i' as u8, 'f' as u8].len() == 2);
        assert(w[0] != seq!['e' as u8, 'l' as u8, 's' as u8, 'e' as u8][0]);
        assert(seq!['w' as u8, 'h' as u8, 'i' as u8, 'l' as u8, 'e' as u8].len() == 5);
        assert(seq!['r' as u8, 'e' as u8, 'p' as u8, 'e' as u8, 'a' as u8, 't' as u8].len() == 6);
        assert(seq!['f' as u8, 'o' as u8, 'r' as u8, 'e' as u8, 'v' as u8, 'e' as u8, 'r' as u8].len() == 7);
        assert(seq!['d' as u8, 'e' as u8, 'l' as u8, 'e' as u8, 't' as u8, 'e' as u8].len() == 6);
        assert(seq!['i' as u8, 'n' as u8, 's' as u8, 'e' as u8, 'r' as u8, 't' as u8].len() == 6);
        assert(seq!['a' as u8, 't' as u8].len() == 2);
        assert(seq!['t' as u8, 'o' as u8].len() == 2);
        assert(w[1] != seq!['s' as u8, 'h' as u8, 'o' as u8, 'w' as u8][1]);
        assert(w[0] != seq!['h' as u8, 'i' as u8, 'd' as u8, 'e' as u8][0]);
        assert(w[0] != seq!['t' as u8, 'r' as u8, 'u' as u8, 'e' as u8][0]);
        assert(seq!['f' as u8, 'a' as u8, 'l' as u8, 's' as u8, 'e' as u8].len() == 5);
        assert(seq!['d' as u8, 'i' as u8, 'v' as u8].len() == 3);
        assert(seq!['i' as u8, 'n' as u8].len() == 2);
        assert(seq!['r' as u8, 'o' as u8, 'u' as u8, 'n' as u8, 'd' as u8].len() == 5);
        assert(seq!['a' as u8, 'b' as u8, 's' as u8].len() == 3);
        assert(seq!['f' as u8, 'l' as u8, 'o' as u8, 'o' as u8, 'r' as u8].len() == 5);
        assert(w[0] != seq!['c' as u8, 'e' as u8, 'i' as u8, 'l' as u8][0]);
    }
    assert(spec_keyword(seq!['s' as u8, 'i' as u8, 'n' as u8]) == Some(Token::Sin)) by {
        let w = seq!['s' as u8, 'i' as u8, 'n' as u8];
        assert(w.len() == 3);
        assert(seq!['c' as u8, 'o' as u8, 's' as u8, 't' as u8, 'u' as u8, 'm' as u8, 'e' as u8, 's' as u8].len() == 8);
        assert(seq!['s' as u8, 'o' as u8, 'u' as u8, 'n' as u8, 'd' as u8, 's' as u8].len() == 6);
        assert(w[0] != seq!['v' as u8, 'a' as u8, 'r' as u8][0]);
        assert(seq!['l' as u8, 'i' as u8, 's' as u8, 't' as u8].len() == 4);
        assert(w[0] != seq!['l' as u8, 'e' as u8, 't' as u8][0]);
        assert(seq!['s' as u8, 't' as u8, 'r' as u8, 'u' as u8, 'c' as u8, 't' as u8].len() == 6);
        assert(seq!['e' as u8, 'n' as u8, 'u' as u8, 'm' as u8].len() == 4);
        assert(seq!['f' as u8, 'u' as u8, 'n' as u8, 'c' as u8, 't' as u8, 'i' as u8, 'o' as u8, 'n' as u8].len() == 8);
        assert(seq!['n' as u8, 'o' as u8, 'w' as u8, 'a' as u8, 'r' as u8, 'p' as u8].len() == 6);
        assert(seq!['r' as u8, 'e' as u8, 't' as u8, 'u' as u8, 'r' as u8, 'n' as u8].len() == 6);
        assert(seq!['o' as u8, 'n' as u8, 'f' as u8, 'l' as u8, 'a' as u8, 'g' as u8].len() == 6);
        assert(seq!['o' as u8, 'n' as u8, 'c' as u8, 'l' as u8, 'i' as u8, 'c' as u8, 'k' as u8].len() == 7);
        assert(seq!['o' as u8, 'n' as u8, 'c' as u8, 'l' as u8, 'o' as u8, 'n' as u8, 'e' as u8].len() == 7);
        assert(seq!['o' as u8, 'n' as u8, 'k' as u8, 'e' as u8, 'y' as u8].len() == 5);
        assert(seq!['o' as u8, 'n' as u8].len() == 2);
        assert(seq!['o' as u8, 'n' as u8, 'b' as u8, 'a' as u8, 'c' as u8, 'k' as u8, 'd' as u8, 'r' as u8, 'o' as u8, 'p' as u8].len() == 10);
        assert(seq!['i' as u8, 'f' as u8].len() == 2);
        assert(seq!['e' as u8, 'l' as u8, 's' as u8, 'e' as u8].len() == 4);
        assert(seq!['w' as u8, 'h' as u8, 'i' as u8, 'l' as u8, 'e' as u8].len() == 5);
        assert(seq!['r' as u8, 'e' as u8, 'p' as u8, 'e' as u8, 'a' as u8, 't' as u8].len() == 6);
        assert(seq!['f' as u8, 'o' as u8, 'r' as u8, 'e' as u8, 'v' as u8, 'e' as u8, 'r' as u8].len() == 7);
        assert(seq!['d' as u8, 'e' as u8, 'l' as u8, 'e' as u8, 't' as u8, 'e' as u8].len() == 6);
        assert(seq!['i' as u8, 'n' as u8, 's' as u8, 'e' as u8, 'r' as u8, 't' as u8].len() == 6);
        assert(seq!['a' as u8, 't' as u8].len() == 2);
        assert(seq!['t' as u8, 'o' as u8].len() == 2);
        assert(seq!['s' as u8, 'h' as u8, 'o' as u8, 'w' as u8].len() == 4);
        assert(seq!['h' as u8, 'i' as u8, 'd' as u8, 'e' as u8].len() == 4);
        assert(seq!['t' as u8, 'r' as u8, 'u' as u8, 'e' as u8].len() == 4);
        assert(seq!['f' as u8, 'a' as u8, 'l' as u8, 's' as u8, 'e' as u8].len() == 5);
        assert(w[0] != seq!['d' as u8, 'i' as u8, 'v' as u8][0]);
        assert(seq!['i' as u8, 'n' as u8].len() == 2);
        assert(seq!['r' as u8, 'o' as u8, 'u' as u8, 'n' as u8, 'd' as u8].len() == 5);
        assert(w[0] != seq!['a' as u8, 'b' as u8, 's' as u8][0]);
        assert(seq!['f' as u8, 'l' as u8, 'o' as u8, 'o' as u8, 'r' as u8].len() == 5);
        assert(seq!['c' as u8, 'e' as u8, 'i' as u8, 'l' as u8].len() == 4);
        assert(seq!['s' as u8, 'q' as u8, 'r' as u8, 't' as u8].len() == 4);
    }
    assert(spec_keyword(seq!['c' as u8, 'o' as u8, 's' as u8]) == Some(Token::Cos)) by {
        let w = seq!['c' as u8, 'o' as u8, 's' as u8];
        assert(w.len() == 3);
        assert(seq!['c' as u8, 'o' as u8, 's' as u8, 't' as u8, 'u' as u8, 'm' as u8, 'e' as u8, 's' as u8].len() == 8);
        assert(seq!['s' as u8, 'o' as u8, 'u' as u8, 'n' as u8, 'd' as u8, 's' as u8].len() == 6);
        assert(w[0] != seq!['v' as u8, 'a' as u8, 'r' as u8][0]);
        assert(seq!['l' as u8, 'i' as u8, 's' as u8, 't' as u8].len() == 4);
        assert(w[0] != seq!['l' as u8, 'e' as u8, 't' as u8][0]);
        assert(seq!['s' as u8, 't' as u8, 'r' as u8, 'u' as u8, 'c' as u8, 't' as u8].len() == 6);
        assert(seq!['e' as u8, 'n' as u8, 'u' as u8, 'm' as u8].len() == 4);
        assert(seq!['f' as u8, 'u' as u8, 'n' as u8, 'c' as u8, 't' as u8, 'i' as u8, 'o' as u8, 'n' as u8].len() == 8);
        assert(seq!['n' as u8, 'o' as u8, 'w' as u8, 'a' as u8, 'r' as u8, 'p' as u8].len() == 6);
        assert(seq!['r' as u8, 'e' as u8, 't' as u8, 'u' as u8, 'r' as u8, 'n' as u8].len() == 6);
        assert(seq!['o' as u8, 'n' as u8, 'f' as u8, 'l' as u8, 'a' as u8, 'g' as u8].len() == 6);
        assert(seq!['o' as u8, 'n' as u8, 'c' as u8, 'l' as u8, 'i' as u8, 'c' as u8, 'k' as u8].len() == 7);
        assert(seq!['o' as u8, 'n' as u8, 'c' as u8, 'l' as u8, 'o' as u8, 'n' as u8, 'e' as u8].len() == 7);
        assert(seq!['o' as u8, 'n' as u8, 'k' as u8, 'e' as u8, 'y' as u8].len() == 5);
        assert(seq!['o' as u8, 'n' as u8].len() == 2);
        assert(seq!['o' as u8, 'n' as u8, 'b' as u8, 'a' as u8, 'c' as u8, 'k' as u8, 'd' as u8, 'r' as u8, 'o' as u8, 'p' as u8].len() == 10);
        assert(seq!['i' as u8, 'f' as u8].len() == 2);
        assert(seq!['e' as u8, 'l' as u8, 's' as u8, 'e' as u8].len() == 4);
        assert(seq!['w' as u8, 'h' as u8, 'i' as u8, 'l' as u8, 'e' as u8].len() == 5);
        assert(seq!['r' as u8, 'e' as u8, 'p' as u8, 'e' as u8, 'a' as u8, 't' as u8].len() == 6);
        assert(seq!['f' as u8, 'o' as u8, 'r' as u8, 'e' as u8, 'v' as u8, 'e' as u8, 'r' as u8].len() == 7);
        assert(seq!['d' as u8, 'e' as u8, 'l' as u8, 'e' as u8, 't' as u8, 'e' as u8].len() == 6);
        assert(seq!['i' as u8, 'n' as u8, 's' as u8, 'e' as u8, 'r' as u8, 't' as u8].len() == 6);
        assert(seq!['a' as u8, 't' as u8].len() == 2);
        assert(seq!['t' as u8, 'o' as u8].len() == 2);
        assert(seq!['s' as u8, 'h' as u8, 'o' as u8, 'w' as u8].len() == 4);
        assert(seq!['h' as u8, 'i' as u8, 'd' as u8, 'e' as u8].len() == 4);
        assert(seq!['t' as u8, 'r' as u8, 'u' as u8, 'e' as u8].len() == 4);
        assert(seq!['f' as u8, 'a' as u8, 'l' as u8, 's' as u8, 'e' as u8].len() == 5);
        assert(w[0] != seq!['d' as u8, 'i' as u8, 'v' as u8][0]);
        assert(seq!['i' as u8, 'n' as u8].len() == 2);
        assert(seq!['r' as u8, 'o' as u8, 'u' as u8, 'n' as u8, 'd' as u8].len() == 5);
        assert(w[0] != seq!['a' as u8, 'b' as u8, 's' as u8][0]);
        assert(seq!['f' as u8, 'l' as u8, 'o' as u8, 'o' as u8, 'r' as u8].len() == 5);
        assert(seq!['c' as u8, 'e' as u8, 'i' as u8, 'l' as u8].len() == 4);
        assert(seq!['s' as u8, 'q' as u8, 'r' as u8, 't' as u8].len() == 4);
        assert(w[0] != seq!['s' as u8, 'i' as u8, 'n' as u8][0]);
    }
    assert(spec_keyword(seq!['t' as u8, 'a' as u8, 'n' as u8]) == Some(Token::Tan)) by {
        let w = seq!['t' as u8, 'a' as u8, 'n' as u8];
        assert(w.len() == 3);
        assert(seq!['c' as u8, 'o' as u8, 's' as u8, 't' as u8, 'u' as u8, 'm' as u8, 'e' as u8, 's' as u8].len() == 8);
        assert(seq!['s' as u8, 'o' as u8, 'u' as u8, 'n' as u8, 'd' as u8, 's' as u8].len() == 6);
        assert(w[0] != seq!['v' as u8, 'a' as u8, 'r' as u8][0]);
        assert(seq!['l' as u8, 'i' as u8, 's' as u8, 't' as u8].len() == 4);
        assert(w[0] != seq!['l' as u8, 'e' as u8, 't' as u8][0]);
        assert(seq!['s' as u8, 't' as u8, 'r' as u8, 'u' as u8, 'c' as u8, 't' as u8].len() == 6);
        assert(seq!['e' as u8, 'n' as u8, 'u' as u8, 'm' as u8].len() == 4);
        assert(seq!['f' as u8, 'u' as u8, 'n' as u8, 'c' as u8, 't' as u8, 'i' as u8, 'o' as u8, 'n' as u8].len() == 8);
        assert(seq!['n' as u8, 'o' as u8, 'w' as u8, 'a' as u8, 'r' as u8, 'p' as u8].len() == 6);
        assert(seq!['r' as u8, 'e' as u8, 't' as u8, 'u' as u8, 'r' as u8, 'n' as u8].len() == 6);
        assert(seq!['o' as u8, 'n' as u8, 'f' as u8, 'l' as u8, 'a' as u8, 'g' as u8].len() == 6);
        assert(seq!['o' as u8, 'n' as u8, 'c' as u8, 'l' as u8, 'i' as u8, 'c' as u8, 'k' as u8].len() == 7);
        assert(seq!['o' as u8, 'n' as u8, 'c' as u8, 'l' as u8, 'o' as u8, 'n' as u8, 'e' as u8].len() == 7);
        assert(seq!['o' as u8, 'n' as u8, 'k' as u8, 'e' as u8, 'y' as u8].len() == 5);
        assert(seq!['o' as u8, 'n' as u8].len() == 2);
        assert(seq!['o' as u8, 'n' as u8, 'b' as u8, 'a' as u8, 'c' as u8, 'k' as u8, 'd' as u8, 'r' as u8, 'o' as u8, 'p' as u8].len() == 10);
        assert(seq!['i' as u8, 'f' as u8].len() == 2);
        assert(seq!['e' as u8, 'l' as u8, 's' as u8, 'e' as u8].len() == 4);
        assert(seq!['w' as u8, 'h' as u8, 'i' as u8, 'l' as u8, 'e' as u8].len() == 5);
        assert(seq!['r' as u8, 'e' as u8, 'p' as u8, 'e' as u8, 'a' as u8, 't' as u8].len() == 6);
        assert(seq!['f' as u8, 'o' as u8, 'r' as u8, 'e' as u8, 'v' as u8, 'e' as u8, 'r' as u8].len() == 7);
        assert(seq!['d' as u8, 'e' as u8, 'l' as u8, 'e' as u8, 't' as u8, 'e' as u8].len() == 6);
        assert(seq!['i' as u8, 'n' as u8, 's' as u8, 'e' as u8, 'r' as u8, 't' as u8].len() == 6);
        assert(seq!['a' as u8, 't' as u8].len() == 2);
        assert(seq!['t' as u8, 'o' as u8].len() == 2);
        assert(seq!['s' as u8, 'h' as u8, 'o' as u8, 'w' as u8].len() == 4);
        assert(seq!['h' as u8, 'i' as u8, 'd' as u8, 'e' as u8].len() == 4);
        assert(seq!['t' as u8, 'r' as u8, 'u' as u8, 'e' as u8].len() == 4);
        assert(seq!['f' as u8, 'a' as u8, 'l' as u8, 's' as u8, 'e' as u8].len() == 5);
        assert(w[0] != seq!['d' as u8, 'i' as u8, 'v' as u8][0]);
        assert(seq!['i' as u8, 'n' as u8].len() == 2);
        assert(seq!['r' as u8, 'o' as u8, 'u' as u8, 'n' as u8, 'd' as u8].len() == 5);
        assert(w[0] != seq!['a' as u8, 'b' as u8, 's' as u8][0]);
        assert(seq!['f' as u8, 'l' as u8, 'o' as u8, 'o' as u8, 'r' as u8].len() == 5);
        assert(seq!['c' as u8, 'e' as u8, 'i' as u8, 'l' as u8].len() == 4);
        assert(seq!['s' as u8, 'q' as u8, 'r' as u8, 't' as u8].len() == 4);
        assert(w[0] != seq!['s' as u8, 'i' as u8, 'n' as u8][0]);
        assert(w[0] != seq!['c' as u8, 'o' as u8, 's' as u8][0]);
    }
    assert(spec_keyword(seq!['a' as u8, 's' as u8, 'i' as u8, 'n' as u8]) == Some(Token::Asin)) by {
        let w = seq!['a' as u8, 's' as u8, 'i' as u8, 'n' as u8];
        assert(w.len() == 4);
        assert(seq!['c' as u8, 'o' as u8, 's' as u8, 't' as u8, 'u' as u8, 'm' as u8, 'e' as u8, 's' as u8].len() == 8);
        assert(seq!['s' as u8, 'o' as u8, 'u' as u8, 'n' as u8, 'd' as u8, 's' as u8].len() == 6);
        assert(seq!['v' as u8, 'a' as u8, 'r' as u8].len() == 3);
        assert(w[0] != seq!['l' as u8, 'i' as u8, 's' as u8, 't' as u8][0]);
        assert(seq!['l' as u8, 'e' as u8, 't' as u8].len() == 3);
        assert(seq!['s' as u8, 't' as u8, 'r' as u8, 'u' as u8, 'c' as u8, 't' as u8].len() == 6);
        assert(w[0] != seq!['e' as u8, 'n' as u8, 'u' as u8, 'm' as u8][0]);
        assert(seq!['f' as u8, 'u' as u8, 'n' as u8, 'c' as u8, 't' as u8, 'i' as u8, 'o' as u8, 'n' as u8].len() == 8);
        assert(seq!['n' as u8, 'o' as u8, 'w' as u8, 'a' as u8, 'r' as u8, 'p' as u8].len() == 6);
        assert(seq!['r' as u8, 'e' as u8, 't' as u8, 'u' as u8, 'r' as u8, 'n' as u8].len() == 6);
        assert(seq!['o' as u8, 'n' as u8, 'f' as u8, 'l' as u8, 'a' as u8, 'g' as u8].len() == 6);
        assert(seq!['o' as u8, 'n' as u8, 'c' as u8, 'l' as u8, 'i' as u8, 'c' as u8, 'k' as u8].len() == 7);
        assert(seq!['o' as u8, 'n' as u8, 'c' as u8, 'l' as u8, 'o' as u8, 'n' as u8, 'e' as u8].len() == 7);
        assert(seq!['o' as u8, 'n' as u8, 'k' as u8, 'e' as u8, 'y' as u8].len() == 5);
        assert(seq!['o' as u8, 'n' as u8].len() == 2);
        assert(seq!['o' as u8, 'n' as u8, 'b' as u8, 'a' as u8, 'c' as u8, 'k' as u8, 'd' as u8, 'r' as u8, 'o' as u8, 'p' as u8].len() == 10);
        assert(seq!['i' as u8, 'f' as u8].len() == 2);
        assert(w[0] != seq!['e' as u8, 'l' as u8, 's' as u8, 'e' as u8][0]);
        assert(seq!['w' as u8, 'h' as u8, 'i' as u8, 'l' as u8, 'e' as u8].len() == 5);
        assert(seq!['r' as u8, 'e' as u8, 'p' as u8, 'e' as u8, 'a' as u8, 't' as u8].len() == 6);
        assert(seq!['f' as u8, 'o' as u8, 'r' as u8, 'e' as u8, 'v' as u8, 'e' as u8, 'r' as u8].len() == 7);
        assert(seq!['d' as u8, 'e' as u8, 'l' as u8, 'e' as u8, 't' as u8, 'e' as u8].len() == 6);
        assert(seq!['i' as u8, 'n' as u8, 's' as u8, 'e' as u8, 'r' as u8, 't' as u8].len() == 6);
        assert(seq!['a' as u8, 't' as u8].len() == 2);
        assert(seq!['t' as u8, 'o' as u8].len() == 2);
        assert(w[0] != seq!['s' as u8, 'h' as u8, 'o' as u8, 'w' as u8][0]);
        assert(w[0] != seq!['h' as u8, 'i' as u8, 'd' as u8, 'e' as u8][0]);
        assert(w[0] != seq!['t' as u8, 'r' as u8, 'u' as u8, 'e' as u8][0]);
        assert(seq!['f' as u8, 'a' as u8, 'l' as u8, 's' as u8, 'e' as u8].len() == 5);
        assert(seq!['d' as u8, 'i' as u8, 'v' as u8].len() == 3);
        assert(seq!['i' as u8, 'n' as u8].len() == 2);
        assert(seq!['r' as u8, 'o' as u8, 'u' as u8, 'n' as u8, 'd' as u8].len() == 5);
        assert(seq!['a' as u8, 'b' as u8, 's' as u8].len() == 3);
        assert(seq!['f' as u8, 'l' as u8, 'o' as u8, 'o' as u8, 'r' as u8].len() == 5);
        assert(w[0] != seq!['c' as u8, 'e' as u8, 'i' as u8, 'l' as u8][0]);
        assert(w[0] != seq!['s' as u8, 'q' as u8, 'r' as u8, 't' as u8][0]);
        assert(seq!['s' as u8, 'i' as u8, 'n' as u8].len() == 3);
        assert(seq!['c' as u8, 'o' as u8, 's' as u8].len() == 3);
        assert(seq!['t' as u8, 'a' as u8, 'n' as u8].len() == 3);
    }
    assert(spec_keyword(seq!['a' as u8, 'c' as u8, 'o' as u8, 's' as u8]) == Some(Token::Acos)) by {
        let w = seq!['a' as u8, 'c' as u8, 'o' as u8, 's' as u8];
        assert(w.len() == 4);
        assert(seq!['c' as u8, 'o' as u8, 's' as u8, 't' as u8, 'u' as u8, 'm' as u8, 'e' as u8, 's' as u8].len() == 8);
        assert(seq!['s' as u8, 'o' as u8, 'u' as u8, 'n' as u8, 'd' as u8, 's' as u8].len() == 6);
        assert(seq!['v' as u8, 'a' as u8, 'r' as u8].len() == 3);
        assert(w[0] != seq!['l' as u8, 'i' as u8, 's' as u8, 't' as u8][0]);
        assert(seq!['l' as u8, 'e' as u8, 't' as u8].len() == 3);
        assert(seq!['s' as u8, 't' as u8, 'r' as u8, 'u' as u8, 'c' as u8, 't' as u8].len() == 6);
        assert(w[0] != seq!['e' as u8, 'n' as u8, 'u' as u8, 'm' as u8][0]);
        assert(seq!['f' as u8, 'u' as u8, 'n' as u8, 'c' as u8, 't' as u8, 'i' as u8, 'o' as u8, 'n' as u8].len() == 8);
        assert(seq!['n' as u8, 'o' as u8, 'w' as u8, 'a' as u8, 'r' as u8, 'p' as u8].len() == 6);
        assert(seq!['r' as u8, 'e' as u8, 't' as u8, 'u' as u8, 'r' as u8, 'n' as u8].len() == 6);
        assert(seq!['o' as u8, 'n' as u8, 'f' as u8, 'l' as u8, 'a' as u8, 'g' as u8].len() == 6);
        assert(seq!['o' as u8, 'n' as u8, 'c' as u8, 'l' as u8, 'i' as u8, 'c' as u8, 'k' as u8].len() == 7);
        assert(seq!['o' as u8, 'n' as u8, 'c' as u8, 'l' as u8, 'o' as u8, 'n' as u8, 'e' as u8].len() == 7);
        assert(seq!['o' as u8, 'n' as u8, 'k' as u8, 'e' as u8, 'y' as u8].len() == 5);
        assert(seq!['o' as u8, 'n' as u8].len() == 2);
        assert(seq!['o' as u8, 'n' as u8, 'b' as u8, 'a' as u8, 'c' as u8, 'k' as u8, 'd' as u8, 'r' as u8, 'o' as u8, 'p' as u8].len() == 10);
        assert(seq!['i' as u8, 'f' as u8].len() == 2);
        assert(w[0] != seq!['e' as u8, 'l' as u8, 's' as u8, 'e' as u8][0]);
        assert(seq!['w' as u8, 'h' as u8, 'i' as u8, 'l' as u8, 'e' as u8].len() == 5);
        assert(seq!['r' as u8, 'e' as u8, 'p' as u8, 'e' as u8, 'a' as u8, 't' as u8].len() == 6);
        assert(seq!['f' as u8, 'o' as u8, 'r' as u8, 'e' as u8, 'v' as u8, 'e' as u8, 'r' as u8].len() == 7);
        assert(seq!['d' as u8, 'e' as u8, 'l' as u8, 'e' as u8, 't' as u8, 'e' as u8].len() == 6);
        assert(seq!['i' as u8, 'n' as u8, 's' as u8, 'e' as u8, 'r' as u8, 't' as u8].len() == 6);
        assert(seq!['a' as u8, 't' as u8].len() == 2);
        assert(seq!['t' as u8, 'o' as u8].len() == 2);
        assert(w[0] != seq!['s' as u8, 'h' as u8, 'o' as u8, 'w' as u8][0]);
        assert(w[0] != seq!['h' as u8, 'i' as u8, 'd' as u8, 'e' as u8][0]);
        assert(w[0] != seq!['t' as u8, 'r' as u8, 'u' as u8, 'e' as u8][0]);
        assert(seq!['f' as u8, 'a' as u8, 'l' as u8, 's' as u8, 'e' as u8].len() == 5);
        assert(seq!['d' as u8, 'i' as u8, 'v' as u8].len() == 3);
        assert(seq!['i' as u8, 'n' as u8].len() == 2);
        assert(seq!['r' as u8, 'o' as u8, 'u' as u8, 'n' as u8, 'd' as u8].len() == 5);
        assert(seq!['a' as u8, 'b' as u8, 's' as u8].len() == 3);
        assert(seq!['f' as u8, 'l' as u8, 'o' as u8, 'o' as u8, 'r' as u8].len() == 5);
        assert(w[0] != seq!['c' as u8, 'e' as u8, 'i' as u8, 'l' as u8][0]);
        assert(w[0] != seq!['s' as u8, 'q' as u8, 'r' as u8, 't' as u8][0]);
        assert(seq!['s' as u8, 'i' as u8, 'n' as u8].len() == 3);
        assert(seq!['c' as u8, 'o' as u8, 's' as u8].len() == 3);
        assert(seq!['t' as u8, 'a' as u8, 'n' as u8].len() == 3);
        assert(w[1] != seq!['a' as u8, 's' as u8, 'i' as u8, 'n' as u8][1]);
    }
    assert(spec_keyword(seq!['a' as u8, 't' as u8, 'a' as u8, 'n' as u8]) == Some(Token::Atan)) by {
        let w = seq!['a' as u8, 't' as u8, 'a' as u8, 'n' as u8];
        assert(w.len() == 4);
        assert(seq!['c' as u8, 'o' as u8, 's' as u8, 't' as u8, 'u' as u8, 'm' as u8, 'e' as u8, 's' as u8].len() == 8);
        assert(seq!['s' as u8, 'o' as u8, 'u' as u8, 'n' as u8, 'd' as u8, 's' as u8].len() == 6);
        assert(seq!['v' as u8, 'a' as u8, 'r' as u8].len() == 3);
        assert(w[0] != seq!['l' as u8, 'i' as u8, 's' as u8, 't' as u8][0]);
        assert(seq!['l' as u8, 'e' as u8, 't' as u8].len() == 3);
        assert(seq!['s' as u8, 't' as u8, 'r' as u8, 'u' as u8, 'c' as u8, 't' as u8].len() == 6);
        assert(w[0] != seq!['e' as u8, 'n' as u8, 'u' as u8, 'm' as u8][0]);
        assert(seq!['f' as u8, 'u' as u8, 'n' as u8, 'c' as u8, 't' as u8, 'i' as u8, 'o' as u8, 'n' as u8].len() == 8);
        assert(seq!['n' as u8, 'o' as u8, 'w' as u8, 'a' as u8, 'r' as u8, 'p' as u8].len() == 6);
        assert(seq!['r' as u8, 'e' as u8, 't' as u8, 'u' as u8, 'r' as u8, 'n' as u8].len() == 6);
        assert(seq!['o' as u8, 'n' as u8, 'f' as u8, 'l' as u8, 'a' as u8, 'g' as u8].len() == 6);
        assert(seq!['o' as u8, 'n' as u8, 'c' as u8, 'l' as u8, 'i' as u8, 'c' as u8, 'k' as u8].len() == 7);
        assert(seq!['o' as u8, 'n' as u8, 'c' as u8, 'l' as u8, 'o' as u8, 'n' as u8, 'e' as u8].len() == 7);
        assert(seq!['o' as u8, 'n' as u8, 'k' as u8, 'e' as u8, 'y' as u8].len() == 5);
        assert(seq!['o' as u8, 'n' as u8].len() == 2);
        assert(seq!['o' as u8, 'n' as u8, 'b' as u8, 'a' as u8, 'c' as u8, 'k' as u8, 'd' as u8, 'r' as u8, 'o' as u8, 'p' as u8].len() == 10);
        assert(seq!['i' as u8, 'f' as u8].len() == 2);
        assert(w[0] != seq!['e' as u8, 'l' as u8, 's' as u8, 'e' as u8][0]);
        assert(seq!['w' as u8, 'h' as u8, 'i' as u8, 'l' as u8, 'e' as u8].len() == 5);
        assert(seq!['r' as u8, 'e' as u8, 'p' as u8, 'e' as u8, 'a' as u8, 't' as u8].len() == 6);
        assert(seq!['f' as u8, 'o' as u8, 'r' as u8, 'e' as u8, 'v' as u8, 'e' as u8, 'r' as u8].len() == 7);
        assert(seq!['d' as u8, 'e' as u8, 'l' as u8, 'e' as u8, 't' as u8, 'e' as u8].len() == 6);
        assert(seq!['i' as u8, 'n' as u8, 's' as u8, 'e' as u8, 'r' as u8, 't' as u8].len() == 6);
        assert(seq!['a' as u8, 't' as u8].len() == 2);
        assert(seq!['t' as u8, 'o' as u8].len() == 2);
        assert(w[0] != seq!['s' as u8, 'h' as u8, 'o' as u8, 'w' as u8][0]);
        assert(w[0] != seq!['h' as u8, 'i' as u8, 'd' as u8, 'e' as u8][0]);
        assert(w[0] != seq!['t' as u8, 'r' as u8, 'u' as u8, 'e' as u8][0]);
        assert(seq!['f' as u8, 'a' as u8, 'l' as u8, 's' as u8, 'e' as u8].len() == 5);
        assert(seq!['d' as u8, 'i' as u8, 'v' as u8].len() == 3);
        assert(seq!['i' as u8, 'n' as u8].len() == 2);
        assert(seq!['r' as u8, 'o' as u8, 'u' as u8, 'n' as u8, 'd' as u8].len() == 5);
        assert(seq!['a' as u8, 'b' as u8, 's' as u8].len() == 3);
        assert(seq!['f' as u8, 'l' as u8, 'o' as u8, 'o' as u8, 'r' as u8].len() == 5);
        assert(w[0] != seq!['c' as u8, 'e' as u8, 'i' as u8, 'l' as u8][0]);
        assert(w[0] != seq!['s' as u8, 'q' as u8, 'r' as u8, 't' as u8][0]);
        assert(seq!['s' as u8, 'i' as u8, 'n' as u8].len() == 3);
        assert(seq!['c' as u8, 'o' as u8, 's' as u8].len() == 3);
        assert(seq!['t' as u8, 'a' as u8, 'n' as u8].len() == 3);
        assert(w[1] != seq!['a' as u8, 's' as u8, 'i' as u8, 'n' as u8][1]);
        assert(w[1] != seq!['a' as u8, 'c' as u8, 'o' as u8, 's' as u8][1]);
    }
    assert(spec_keyword(seq!['l' as u8, 'n' as u8]) == Some(Token::Ln)) by {
        let w = seq!['l' as u8, 'n' as u8];
        assert(w.len() == 2);
        assert(seq!['c' as u8, 'o' as u8, 's' as u8, 't' as u8, 'u' as u8, 'm' as u8, 'e' as u8, 's' as u8].len() == 8);
        assert(seq!['s' as u8, 'o' as u8, 'u' as u8, 'n' as u8, 'd' as u8, 's' as u8].len() == 6);
        assert(seq!['v' as u8, 'a' as u8, 'r' as u8].len() == 3);
        assert(seq!['l' as u8, 'i' as u8, 's' as u8, 't' as u8].len() == 4);
        assert(seq!['l' as u8, 'e' as u8, 't' as u8].len() == 3);
        assert(seq!['s' as u8, 't' as u8, 'r' as u8, 'u' as u8, 'c' as u8, 't' as u8].len() == 6);
        assert(seq!['e' as u8, 'n' as u8, 'u' as u8, 'm' as u8].len() == 4);
        assert(seq!['f' as u8, 'u' as u8, 'n' as u8, 'c' as u8, 't' as u8, 'i' as u8, 'o' as u8, 'n' as u8].len() == 8);
        assert(seq!['n' as u8, 'o' as u8, 'w' as u8, 'a' as u8, 'r' as u8, 'p' as u8].len() == 6);
        assert(seq!['r' as u8, 'e' as u8, 't' as u8, 'u' as u8, 'r' as u8, 'n' as u8].len() == 6);
        assert(seq!['o' as u8, 'n' as u8, 'f' as u8, 'l' as u8, 'a' as u8, 'g' as u8].len() == 6);
        assert(seq!['o' as u8, 'n' as u8, 'c' as u8, 'l' as u8, 'i' as u8, 'c' as u8, 'k' as u8].len() == 7);
        assert(seq!['o' as u8, 'n' as u8, 'c' as u8, 'l' as u8, 'o' as u8, 'n' as u8, 'e' as u8].len() == 7);
        assert(seq!['o' as u8, 'n' as u8, 'k' as u8, 'e' as u8, 'y' as u8].len() == 5);
        assert(w[0] != seq!['o' as u8, 'n' as u8][0]);
        assert(seq!['o' as u8, 'n' as u8, 'b' as u8, 'a' as u8, 'c' as u8, 'k' as u8, 'd' as u8, 'r' as u8, 'o' as u8, 'p' as u8].len() == 10);
        assert(w[0] != seq!['i' as u8, 'f' as u8][0]);
        assert(seq!['e' as u8, 'l' as u8, 's' as u8, 'e' as u8].len() == 4);
        assert(seq!['w' as u8, 'h' as u8, 'i' as u8, 'l' as u8, 'e' as u8].len() == 5);
        assert(seq!['r' as u8, 'e' as u8, 'p' as u8, 'e' as u8, 'a' as u8, 't' as u8].len() == 6);
        assert(seq!['f' as u8, 'o' as u8, 'r' as u8, 'e' as u8, 'v' as u8, 'e' as u8, 'r' as u8].len() == 7);
        assert(seq!['d' as u8, 'e' as u8, 'l' as u8, 'e' as u8, 't' as u8, 'e' as u8].len() == 6);
        assert(seq!['i' as u8, 'n' as u8, 's' as u8, 'e' as u8, 'r' as u8, 't' as u8].len() == 6);
        assert(w[0] != seq!['a' as u8, 't' as u8][0]);
        assert(w[0] != seq!['t' as u8, 'o' as u8][0]);
        assert(seq!['s' as u8, 'h' as u8, 'o' as u8, 'w' as u8].len() == 4);
        assert(seq!['h' as u8, 'i' as u8, 'd' as u8, 'e' as u8].len() == 4);
        assert(seq!['t' as u8, 'r' as u8, 'u' as u8, 'e' as u8].len() == 4);
        assert(seq!['f' as u8, 'a' as u8, 'l' as u8, 's' as u8, 'e' as u8].len() == 5);
        assert(seq!['d' as u8, 'i' as u8, 'v' as u8].len() == 3);
        assert(w[0] != seq!['i' as u8, 'n' as u8][0]);
        assert(seq!['r' as u8, 'o' as u8, 'u' as u8, 'n' as u8, 'd' as u8].len() == 5);
        assert(seq!['a' as u8, 'b' as u8, 's' as u8].len() == 3);
        assert(seq!['f' as u8, 'l' as u8, 'o' as u8, 'o' as u8, 'r' as u8].len() == 5);
        assert(seq!['c' as u8, 'e' as u8, 'i' as u8, 'l' as u8].len() == 4);
        assert(seq!['s' as u8, 'q' as u8, 'r' as u8, 't' as u8].len() == 4);
        assert(seq!['s' as u8, 'i' as u8, 'n' as u8].len() == 3);
        assert(seq!['c' as u8, 'o' as u8, 's' as u8].len() == 3);
        assert(seq!['t' as u8, 'a' as u8, 'n' as u8].len() == 3);
        assert(seq!['a' as u8, 's' as u8, 'i' as u8, 'n' as u8].len() == 4);
        assert(seq!['a' as u8, 'c' as u8, 'o' as u8, 's' as u8].len() == 4);
        assert(seq!['a' as u8, 't' as u8, 'a' as u8, 'n' as u8].len() == 4);
    }
    assert(spec_keyword(seq!['l' as u8, 'o' as u8, 'g' as u8]) == Some(Token::Log)) by {
        let w = seq!['l' as u8, 'o' as u8, 'g' as u8];
        assert(w.len() == 3);
        assert(seq!['c' as u8, 'o' as u8, 's' as u8, 't' as u8, 'u' as u8, 'm' as u8, 'e' as u8, 's' as u8].len() == 8);
        assert(seq!['s' as u8, 'o' as u8, 'u' as u8, 'n' as u8, 'd' as u8, 's' as u8].len() == 6);
        assert(w[0] != seq!['v' as u8, 'a' as u8, 'r' as u8][0]);
        assert(seq!['l' as u8, 'i' as u8, 's' as u8, 't' as u8].len() == 4);
        assert(w[1] != seq!['l' as u8, 'e' as u8, 't' as u8][1]);
        assert(seq!['s' as u8, 't' as u8, 'r' as u8, 'u' as u8, 'c' as u8, 't' as u8].len() == 6);
        assert(seq!['e' as u8, 'n' as u8, 'u' as u8, 'm' as u8].len() == 4);
        assert(seq!['f' as u8, 'u' as u8, 'n' as u8, 'c' as u8, 't' as u8, 'i' as u8, 'o' as u8, 'n' as u8].len() == 8);
        assert(seq!['n' as u8, 'o' as u8, 'w' as u8, 'a' as u8, 'r' as u8, 'p' as u8].len() == 6);
        assert(seq!['r' as u8, 'e' as u8, 't' as u8, 'u' as u8, 'r' as u8, 'n' as u8].len() == 6);
        assert(seq!['o' as u8, 'n' as u8, 'f' as u8, 'l' as u8, 'a' as u8, 'g' as u8].len() == 6);
        assert(seq!['o' as u8, 'n' as u8, 'c' as u8, 'l' as u8, 'i' as u8, 'c' as u8, 'k' as u8].len() == 7);
        assert(seq!['o' as u8, 'n' as u8, 'c' as u8, 'l' as u8, 'o' as u8, 'n' as u8, 'e' as u8].len() == 7);
        assert(seq!['o' as u8, 'n' as u8, 'k' as u8, 'e' as u8, 'y' as u8].len() == 5);
        assert(seq!['o' as u8, 'n' as u8].len() == 2);
        assert(seq!['o' as u8, 'n' as u8, 'b' as u8, 'a' as u8, 'c' as u8, 'k' as u8, 'd' as u8, 'r' as u8, 'o' as u8, 'p' as u8].len() == 10);
        assert(seq!['i' as u8, 'f' as u8].len() == 2);
        assert(seq!['e' as u8, 'l' as u8, 's' as u8, 'e' as u8].len() == 4);
        assert(seq!['w' as u8, 'h' as u8, 'i' as u8, 'l' as u8, 'e' as u8].len() == 5);
        assert(seq!['r' as u8, 'e' as u8, 'p' as u8, 'e' as u8, 'a' as u8, 't' as u8].len() == 6);
        assert(seq!['f' as u8, 'o' as u8, 'r' as u8, 'e' as u8, 'v' as u8, 'e' as u8, 'r' as u8].len() == 7);
        assert(seq!['d' as u8, 'e' as u8, 'l' as u8, 'e' as u8, 't' as u8, 'e' as u8].len() == 6);
        assert(seq!['i' as u8, 'n' as u8, 's' as u8, 'e' as u8, 'r' as u8, 't' as u8].len() == 6);
        assert(seq!['a' as u8, 't' as u8].len() == 2);
        assert(seq!['t' as u8, 'o' as u8].len() == 2);
        assert(seq!['s' as u8, 'h' as u8, 'o' as u8, 'w' as u8].len() == 4);
        assert(seq!['h' as u8, 'i' as u8, 'd' as u8, 'e' as u8].len() == 4);
        assert(seq!['t' as u8, 'r' as u8, 'u' as u8, 'e' as u8].len() == 4);
        assert(seq!['f' as u8, 'a' as u8, 'l' as u8, 's' as u8, 'e' as u8].len() == 5);
        assert(w[0] != seq!['d' as u8, 'i' as u8, 'v' as u8][0]);
        assert(seq!['i' as u8, 'n' as u8].len() == 2);
        assert(seq!['r' as u8, 'o' as u8, 'u' as u8, 'n' as u8, 'd' as u8].len() == 5);
        assert(w[0] != seq!['a' as u8, 'b' as u8, 's' as u8][0]);
        assert(seq!['f' as u8, 'l' as u8, 'o' as u8, 'o' as u8, 'r' as u8].len() == 5);
        assert(seq!['c' as u8, 'e' as u8, 'i' as u8, 'l' as u8].len() == 4);
        assert(seq!['s' as u8, 'q' as u8, 'r' as u8, 't' as u8].len() == 4);
        assert(w[0] != seq!['s' as u8, 'i' as u8, 'n' as u8][0]);
        assert(w[0] != seq!['c' as u8, 'o' as u8, 's' as u8][0]);
        assert(w[0] != seq!['t' as u8, 'a' as u8, 'n' as u8][0]);
        assert(seq!['a' as u8, 's' as u8, 'i' as u8, 'n' as u8].len() == 4);
        assert(seq!['a' as u8, 'c' as u8, 'o' as u8, 's' as u8].len() == 4);
        assert(seq!['a' as u8, 't' as u8, 'a' as u8, 'n' as u8].len() == 4);
        assert(seq!['l' as u8, 'n' as u8].len() == 2);
    }
    assert(spec_keyword(seq!['a' as u8, 'n' as u8, 't' as u8, 'i' as u8, 'l' as u8, 'n' as u8]) == Some(Token::Antiln)) by {
        let w = seq!['a' as u8, 'n' as u8, 't' as u8, 'i' as u8, 'l' as u8, 'n' as u8];
        assert(w.len() == 6);
        assert(seq!['c' as u8, 'o' as u8, 's' as u8, 't' as u8, 'u' as u8, 'm' as u8, 'e' as u8, 's' as u8].len() == 8);
        assert(w[0] != seq!['s' as u8, 'o' as u8, 'u' as u8, 'n' as u8, 'd' as u8, 's' as u8][0]);
        assert(seq!['v' as u8, 'a' as u8, 'r' as u8].len() == 3);
        assert(seq!['l' as u8, 'i' as u8, 's' as u8, 't' as u8].len() == 4);
        assert(seq!['l' as u8, 'e' as u8, 't' as u8].len() == 3);
        assert(w[0] != seq!['s' as u8, 't' as u8, 'r' as u8, 'u' as u8, 'c' as u8, 't' as u8][0]);
        assert(seq!['e' as u8, 'n' as u8, 'u' as u8, 'm' as u8].len() == 4);
        assert(seq!['f' as u8, 'u' as u8, 'n' as u8, 'c' as u8, 't' as u8, 'i' as u8, 'o' as u8, 'n' as u8].len() == 8);
        assert(w[0] != seq!['n' as u8, 'o' as u8, 'w' as u8, 'a' as u8, 'r' as u8, 'p' as u8][0]);
        assert(w[0] != seq!['r' as u8, 'e' as u8, 't' as u8, 'u' as u8, 'r' as u8, 'n' as u8][0]);
        assert(w[0] != seq!['o' as u8, 'n' as u8, 'f' as u8, 'l' as u8, 'a' as u8, 'g' as u8][0]);
        assert(seq!['o' as u8, 'n' as u8, 'c' as u8, 'l' as u8, 'i' as u8, 'c' as u8, 'k' as u8].len() == 7);
        assert(seq!['o' as u8, 'n' as u8, 'c' as u8, 'l' as u8, 'o' as u8, 'n' as u8, 'e' as u8].len() == 7);
        assert(seq!['o' as u8, 'n' as u8, 'k' as u8, 'e' as u8, 'y' as u8].len() == 5);
        assert(seq!['o' as u8, 'n' as u8].len() == 2);
        assert(seq!['o' as u8, 'n' as u8, 'b' as u8, 'a' as u8, 'c' as u8, 'k' as u8, 'd' as u8, 'r' as u8, 'o' as u8, 'p' as u8].len() == 10);
        assert(seq!['i' as u8, 'f' as u8].len() == 2);
        assert(seq!['e' as u8, 'l' as u8, 's' as u8, 'e' as u8].len() == 4);
        assert(seq!['w' as u8, 'h' as u8, 'i' as u8, 'l' as u8, 'e' as u8].len() == 5);
        assert(w[0] != seq!['r' as u8, 'e' as u8, 'p' as u8, 'e' as u8, 'a' as u8, 't' as u8][0]);
        assert(seq!['f' as u8, 'o' as u8, 'r' as u8, 'e' as u8, 'v' as u8, 'e' as u8, 'r' as u8].len() == 7);
        assert(w[0] != seq!['d' as u8, 'e' as u8, 'l' as u8, 'e' as u8, 't' as u8, 'e' as u8][0]);
        assert(w[0] != seq!['i' as u8, 'n' as u8, 's' as u8, 'e' as u8, 'r' as u8, 't' as u8][0]);
        assert(seq!['a' as u8, 't' as u8].len() == 2);
        assert(seq!['t' as u8, 'o' as u8].len() == 2);
        assert(seq!['s' as u8, 'h' as u8, 'o' as u8, 'w' as u8].len() == 4);
        assert(seq!['h' as u8, 'i' as u8, 'd' as u8, 'e' as u8].len() == 4);
        assert(seq!['t' as u8, 'r' as u8, 'u' as u8, 'e' as u8].len() == 4);
        assert(seq!['f' as u8, 'a' as u8, 'l' as u8, 's' as u8, 'e' as u8].len() == 5);
        assert(seq!['d' as u8, 'i' as u8, 'v' as u8].len() == 3);
        assert(seq!['i' as u8, 'n' as u8].len() == 2);
        assert(seq!['r' as u8, 'o' as u8, 'u' as u8, 'n' as u8, 'd' as u8].len() == 5);
        assert(seq!['a' as u8, 'b' as u8, 's' as u8].len() == 3);
        assert(seq!['f' as u8, 'l' as u8, 'o' as u8, 'o' as u8, 'r' as u8].len() == 5);
        assert(seq!['c' as u8, 'e' as u8, 'i' as u8, 'l' as u8].len() == 4);
        assert(seq!['s' as u8, 'q' as u8, 'r' as u8, 't' as u8].len() == 4);
        assert(seq!['s' as u8, 'i' as u8, 'n' as u8].len() == 3);
        assert(seq!['c' as u8, 'o' as u8, 's' as u8].len() == 3);
        assert(seq!['t' as u8, 'a' as u8, 'n' as u8].len() == 3);
        assert(seq!['a' as u8, 's' as u8, 'i' as u8, 'n' as u8].len() == 4);
        assert(seq!['a' as u8, 'c' as u8, 'o' as u8, 's' as u8].len() == 4);
        assert(seq!['a' as u8, 't' as u8, 'a' as u8, 'n' as u8].len() == 4);
        assert(seq!['l' as u8, 'n' as u8].len() == 2);
        assert(seq!['l' as u8, 'o' as u8, 'g' as u8].len() == 3);
    }
    assert(spec_keyword(seq!['a' as u8, 'n' as u8, 't' as u8, 'i' as u8, 'l' as u8, 'o' as u8, 'g' as u8]) == Some(Token::Antilog)) by {
        let w = seq!['a' as u8, 'n' as u8, 't' as u8, 'i' as u8, 'l' as u8, 'o' as u8, 'g' as u8];
        assert(w.len() == 7);
        assert(seq!['c' as u8, 'o' as u8, 's' as u8, 't' as u8, 'u' as u8, 'm' as u8, 'e' as u8, 's' as u8].len() == 8);
        assert(seq!['s' as u8, 'o' as u8, 'u' as u8, 'n' as u8, 'd' as u8, 's' as u8].len() == 6);
        assert(seq!['v' as u8, 'a' as u8, 'r' as u8].len() == 3);
        assert(seq!['l' as u8, 'i' as u8, 's' as u8, 't' as u8].len() == 4);
        assert(seq!['l' as u8, 'e' as u8, 't' as u8].len() == 3);
        assert(seq!['s' as u8, 't' as u8, 'r' as u8, 'u' as u8, 'c' as u8, 't' as u8].len() == 6);
        assert(seq!['e' as u8, 'n' as u8, 'u' as u8, 'm' as u8].len() == 4);
        assert(seq!['f' as u8, 'u' as u8, 'n' as u8, 'c' as u8, 't' as u8, 'i' as u8, 'o' as u8, 'n' as u8].len() == 8);
        assert(seq!['n' as u8, 'o' as u8, 'w' as u8, 'a' as u8, 'r' as u8, 'p' as u8].len() == 6);
        assert(seq!['r' as u8, 'e' as u8, 't' as u8, 'u' as u8, 'r' as u8, 'n' as u8].len() == 6);
        assert(seq!['o' as u8, 'n' as u8, 'f' as u8, 'l' as u8, 'a' as u8, 'g' as u8].len() == 6);
        assert(w[0] != seq!['o' as u8, 'n' as u8, 'c' as u8, 'l' as u8, 'i' as u8, 'c' as u8, 'k' as u8][0]);
        assert(w[0] != seq!['o' as u8, 'n' as u8, 'c' as u8, 'l' as u8, 'o' as u8, 'n' as u8, 'e' as u8][0]);
        assert(seq!['o' as u8, 'n' as u8, 'k' as u8, 'e' as u8, 'y' as u8].len() == 5);
        assert(seq!['o' as u8, 'n' as u8].len() == 2);
        assert(seq!['o' as u8, 'n' as u8, 'b' as u8, 'a' as u8, 'c' as u8, 'k' as u8, 'd' as u8, 'r' as u8, 'o' as u8, 'p' as u8].len() == 10);
        assert(seq!['i' as u8, 'f' as u8].len() == 2);
        assert(seq!['e' as u8, 'l' as u8, 's' as u8, 'e' as u8].len() == 4);
        assert(seq!['w' as u8, 'h' as u8, 'i' as u8, 'l' as u8, 'e' as u8].len() == 5);
        assert(seq!['r' as u8, 'e' as u8, 'p' as u8, 'e' as u8, 'a' as u8, 't' as u8].len() == 6);
        assert(w[0] != seq!['f' as u8, 'o' as u8, 'r' as u8, 'e' as u8, 'v' as u8, 'e' as u8, 'r' as u8][0]);
        assert(seq!['d' as u8, 'e' as u8, 'l' as u8, 'e' as u8, 't' as u8, 'e' as u8].len() == 6);
        assert(seq!['i' as u8, 'n' as u8, 's' as u8, 'e' as u8, 'r' as u8, 't' as u8].len() == 6);
        assert(seq!['a' as u8, 't' as u8].len() == 2);
        assert(seq!['t' as u8, 'o' as u8].len() == 2);
        assert(seq!['s' as u8, 'h' as u8, 'o' as u8, 'w' as u8].len() == 4);
        assert(seq!['h' as u8, 'i' as u8, 'd' as u8, 'e' as u8].len() == 4);
        assert(seq!['t' as u8, 'r' as u8, 'u' as u8, 'e' as u8].len() == 4);
        assert(seq!['f' as u8, 'a' as u8, 'l' as u8, 's' as u8, 'e' as u8].len() == 5);
        assert(seq!['d' as u8, 'i' as u8, 'v' as u8].len() == 3);
        assert(seq!['i' as u8, 'n' as u8].len() == 2);
        assert(seq!['r' as u8, 'o' as u8, 'u' as u8, 'n' as u8, 'd' as u8].len() == 5);
        assert(seq!['a' as u8, 'b' as u8, 's' as u8].len() == 3);
        assert(seq!['f' as u8, 'l' as u8, 'o' as u8, 'o' as u8, 'r' as u8].len() == 5);
        assert(seq!['c' as u8, 'e' as u8, 'i' as u8, 'l' as u8].len() == 4);
        assert(seq!['s' as u8, 'q' as u8, 'r' as u8, 't' as u8].len() == 4);
        assert(seq!['s' as u8, 'i' as u8, 'n' as u8].len() == 3);
        assert(seq!['c' as u8, 'o' as u8, 's' as u8].len() == 3);
        assert(seq!['t' as u8, 'a' as u8, 'n' as u8].len() == 3);
        assert(seq!['a' as u8, 's' as u8, 'i' as u8, 'n' as u8].len() == 4);
        assert(seq!['a' as u8, 'c' as u8, 'o' as u8, 's' as u8].len() == 4);
        assert(seq!['a' as u8, 't' as u8, 'a' as u8, 'n' as u8].len() == 4);
        assert(seq!['l' as u8, 'n' as u8].len() == 2);
        assert(seq!['l' as u8, 'o' as u8, 'g' as u8].len() == 3);
        assert(seq!['a' as u8, 'n' as u8, 't' as u8, 'i' as u8, 'l' as u8, 'n' as u8].len() == 6);
    }
    assert(spec_keyword(seq!['l' as u8, 'e' as u8, 'n' as u8, 'g' as u8, 't' as u8, 'h' as u8]) == Some(Token::Length)) by {
        let w = seq!['l' as u8, 'e' as u8, 'n' as u8, 'g' as u8, 't' as u8, 'h' as u8];
        assert(w.len() == 6);
        assert(seq!['c' as u8, 'o' as u8, 's' as u8, 't' as u8, 'u' as u8, 'm' as u8, 'e' as u8, 's' as u8].len() == 8);
        assert(w[0] != seq!['s' as u8, 'o' as u8, 'u' as u8, 'n' as u8, 'd' as u8, 's' as u8][0]);
        assert(seq!['v' as u8, 'a' as u8, 'r' as u8].len() == 3);
        assert(seq!['l' as u8, 'i' as u8, 's' as u8, 't' as u8].len() == 4);
        assert(seq!['l' as u8, 'e' as u8, 't' as u8].len() == 3);
        assert(w[0] != seq!['s' as u8, 't' as u8, 'r' as u8, 'u' as u8, 'c' as u8, 't' as u8][0]);
        assert(seq!['e' as u8, 'n' as u8, 'u' as u8, 'm' as u8].len() == 4);
        assert(seq!['f' as u8, 'u' as u8, 'n' as u8, 'c' as u8, 't' as u8, 'i' as u8, 'o' as u8, 'n' as u8].len() == 8);
        assert(w[0] != seq!['n' as u8, 'o' as u8, 'w' as u8, 'a' as u8, 'r' as u8, 'p' as u8][0]);
        assert(w[0] != seq!['r' as u8, 'e' as u8, 't' as u8, 'u' as u8, 'r' as u8, 'n' as u8][0]);
        assert(w[0] != seq!['o' as u8, 'n' as u8, 'f' as u8, 'l' as u8, 'a' as u8, 'g' as u8][0]);
        assert(seq!['o' as u8, 'n' as u8, 'c' as u8, 'l' as u8, 'i' as u8, 'c' as u8, 'k' as u8].len() == 7);
        assert(seq!['o' as u8, 'n' as u8, 'c' as u8, 'l' as u8, 'o' as u8, 'n' as u8, 'e' as u8].len() == 7);
        assert(seq!['o' as u8, 'n' as u8, 'k' as u8, 'e' as u8, 'y' as u8].len() == 5);
        assert(seq!['o' as u8, 'n' as u8].len() == 2);
        assert(seq!['o' as u8, 'n' as u8, 'b' as u8, 'a' as u8, 'c' as u8, 'k' as u8, 'd' as u8, 'r' as u8, 'o' as u8, 'p' as u8].len() == 10);
        assert(seq!['i' as u8, 'f' as u8].len() == 2);
        assert(seq!['e' as u8, 'l' as u8, 's' as u8, 'e' as u8].len() == 4);
        assert(seq!['w' as u8, 'h' as u8, 'i' as u8, 'l' as u8, 'e' as u8].len() == 5);
        assert(w[0] != seq!['r' as u8, 'e' as u8, 'p' as u8, 'e' as u8, 'a' as u8, 't' as u8][0]);
        assert(seq!['f' as u8, 'o' as u8, 'r' as u8, 'e' as u8, 'v' as u8, 'e' as u8, 'r' as u8].len() == 7);
        assert(w[0] != seq!['d' as u8, 'e' as u8, 'l' as u8, 'e' as u8, 't' as u8, 'e' as u8][0]);
        assert(w[0] != seq!['i' as u8, 'n' as u8, 's' as u8, 'e' as u8, 'r' as u8, 't' as u8][0]);
        assert(seq!['a' as u8, 't' as u8].len() == 2);
        assert(seq!['t' as u8, 'o' as u8].len() == 2);
        assert(seq!['s' as u8, 'h' as u8, 'o' as u8, 'w' as u8].len() == 4);
        assert(seq!['h' as u8, 'i' as u8, 'd' as u8, 'e' as u8].len() == 4);
        assert(seq!['t' as u8, 'r' as u8, 'u' as u8, 'e' as u8].len() == 4);
        assert(seq!['f' as u8, 'a' as u8, 'l' as u8, 's' as u8, 'e' as u8].len() == 5);
        assert(seq!['d' as u8, 'i' as u8, 'v' as u8].len() == 3);
        assert(seq!['i' as u8, 'n' as u8].len() == 2);
        assert(seq!['r' as u8, 'o' as u8, 'u' as u8, 'n' as u8, 'd' as u8].len() == 5);
        assert(seq!['a' as u8, 'b' as u8, 's' as u8].len() == 3);
        assert(seq!['f' as u8, 'l' as u8, 'o' as u8, 'o' as u8, 'r' as u8].len() == 5);
        assert(seq!['c' as u8, 'e' as u8, 'i' as u8, 'l' as u8].len() == 4);
        assert(seq!['s' as u8, 'q' as u8, 'r' as u8, 't' as u8].len() == 4);
        assert(seq!['s' as u8, 'i' as u8, 'n' as u8].len() == 3);
        assert(seq!['c' as u8, 'o' as u8, 's' as u8].len() == 3);
        assert(seq!['t' as u8, 'a' as u8, 'n' as u8].len() == 3);
        assert(seq!['a' as u8, 's' as u8, 'i' as u8, 'n' as u8].len() == 4);
        assert(seq!['a' as u8, 'c' as u8, 'o' as u8, 's' as u8].len() == 4);
        assert(seq!['a' as u8, 't' as u8, 'a' as u8, 'n' as u8].len() == 4);
        assert(seq!['l' as u8, 'n' as u8].len() == 2);
        assert(seq!['l' as u8, 'o' as u8, 'g' as u8].len() == 3);
        assert(w[0] != seq!['a' as u8, 'n' as u8, 't' as u8, 'i' as u8, 'l' as u8, 'n' as u8][0]);
        assert(seq!['a' as u8, 'n' as u8, 't' as u8, 'i' as u8, 'l' as u8, 'o' as u8, 'g' as u8].len() == 7);
    }
}

/// The text `w` of a token of kind `t` has the form of that kind: a name is
/// a word of letters, digits and `_` that is spelled like no keyword or
/// other token, a number starts with a digit, a string is quoted at both
/// ends, an argument is `$` and a name, and every other token is its
/// spelling.
pub open spec fn token_shape(t: Token, w: Seq<u8>) -> bool {
    match t {
        Token::Name => w.len() > 0 && in_class(CharClass::IdentStart, w[0]) && (forall|k: int|
            0 <= k < w.len() ==> #[trigger] in_class(CharClass::IdentChar, w[k])) && (forall|
            u: Token,
        | #[trigger] spelling(u) != Some(w)),
        Token::Number => w.len() > 0 && in_class(CharClass::Digit, w[0]),
        Token::Str => w.len() >= 2 && w[0] == '"' as u8 && w.last() == '"' as u8,
        Token::Arg => w.len() >= 2 && w[0] == '$' as u8 && in_class(CharClass::IdentStart, w[1]),
        _ => spelling(t) == Some(w),
    }
}

proof fn lemma_ident_run(s: Seq<u8>, i: int, k: int)
    requires
        0 <= i <= k < run_end(s, i, CharClass::IdentChar),
    ensures
        in_class(CharClass::IdentChar, s[k]),
    decreases k - i,
{
    if i < k {
        lemma_ident_run(s, i + 1, k);
    }
}

proof fn lemma_string_close_quote(s: Seq<u8>, i: int, k: int)
    requires
        string_close(s, i) == Some(k),
    ensures
        i <= k < s.len(),
        s[k] == '"' as u8,
    decreases s.len() - i,
{
    if 0 <= i < s.len() && s[i] != '"' as u8 {
        if s[i] == '\\' as u8 {
            if i + 1 < s.len() {
                lemma_string_close_quote(s, i + 2, k);
            }
        } else {
            lemma_string_close_quote(s, i + 1, k);
        }
    }
}

proof fn lemma_name_shape(s: Seq<u8>, i: int)
    requires
        0 <= i < s.len(),
        lex_step(s, i) == (Lexeme::Tok(Token::Name), run_end(s, i, CharClass::IdentChar)),
        in_class(CharClass::IdentStart, s[i]),
        spec_keyword(s.subrange(i, run_end(s, i, CharClass::IdentChar))) is None,
    ensures
        token_shape(Token::Name, s.subrange(i, run_end(s, i, CharClass::IdentChar))),
{
    lemma_run_end(s, i, CharClass::IdentChar);
    lemma_keywords_read();
    let w = s.subrange(i, run_end(s, i, CharClass::IdentChar));
    assert forall|k: int| 0 <= k < w.len() implies #[trigger] in_class(CharClass::IdentChar, w[k]) by {
        lemma_ident_run(s, i, i + k);
    }
    assert forall|u: Token| #[trigger] spelling(u) != Some(w) by {
        if spelling(u) == Some(w) {
            assert(in_class(CharClass::IdentChar, w.last()));
        }
    }
}

/// Each token read has the form of its kind.
#[verifier::rlimit(40)]
pub proof fn lemma_lex_step_shape(s: Seq<u8>, i: int)
    requires
        0 <= i < s.len(),
        lex_step(s, i).1 <= s.len(),
    ensures
        lex_step(s, i).0 matches Lexeme::Tok(t) ==> token_shape(t, s.subrange(i, lex_step(s, i).1)),
{
    lemma_lex_step_spelled(s, i);
    lemma_lex_step(s, i);
    let (lx, j) = lex_step(s, i);
    lemma_run_end(s, i, CharClass::IdentChar);
    lemma_run_end(s, i + 1, CharClass::IdentChar);
    if let Lexeme::Tok(t) = lx {
        if t == Token::Name {
            lemma_name_shape(s, i);
        } else if t == Token::Str {
            if let Some(k) = string_close(s, i + 1) {
                lemma_string_close_quote(s, i + 1, k);
            }
        }
    }
}

/// Every token of a source has the form of its kind.
pub proof fn lemma_lex_shape(s: Seq<u8>, i: int)
    requires
        0 <= i <= s.len(),
        s.len() <= usize::MAX,
    ensures
        forall|k: int|
            0 <= k < lex_from(s, i).0.len() ==> token_shape(
                (#[trigger] lex_from(s, i).0[k]).1,
                s.subrange(lex_from(s, i).0[k].0 as int, lex_from(s, i).0[k].2 as int),
            ),
    decreases s.len() - i,
{
    if i < s.len() {
        let (lx, j) = lex_step(s, i);
        if i < j <= s.len() {
            lemma_lex_shape(s, j);
            lemma_lex_step_shape(s, i);
            let ts = lex_from(s, i).0;
            let rest = lex_from(s, j).0;
            assert forall|k: int| 0 <= k < ts.len() implies token_shape(
                (#[trigger] ts[k]).1,
                s.subrange(ts[k].0 as int, ts[k].2 as int),
            ) by {
                if let Lexeme::Tok(t) = lx {
                    if k > 0 {
                        assert(ts[k] == rest[k - 1]);
                    } else {
                        assert(ts[0] == (i as usize, t, j as usize));
                        assert((i as usize) as int == i && (j as usize) as int == j);
                    }
                } else {
                    assert(ts[k] == rest[k]);
                }
            }
        }
    }
}

/// A string without a backslash stands for its text as it is.
pub proof fn lemma_plain_string_value(t: Seq<u8>, i: int)
    requires
        0 <= i <= t.len(),
        forall|j: int| i <= j < t.len() ==> #[trigger] t[j] != '\\' as u8,
    ensures
        unescape_from(t, i) == t.subrange(i, t.len() as int),
    decreases t.len() - i,
{
    if i < t.len() {
        lemma_plain_string_value(t, i + 1);
        assert(t.subrange(i, t.len() as int) =~= seq![t[i]] + t.subrange(i + 1, t.len() as int));
    } else {
        assert(t.subrange(i, t.len() as int) =~= Seq::<u8>::empty());
    }
}

} // verus!
