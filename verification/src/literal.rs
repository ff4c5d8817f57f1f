//! Number literals: their exact value, which the parser records on each
//! literal as digit lists.
use vstd::prelude::*;

use crate::lexer::{
    byte_at, in_class, lemma_lex_step, lemma_run_end, lex_from, lex_step, number_end, run_end, spec_lex,
    CharClass, Lexeme,
};
use crate::token::{SpannedToken, Token};
use crate::ast::{
    Event, Expr, FieldValue, Func, Kwarg, List, NamedSprite, Number, Proc, Span, Sprite, Stmt, Value,
};
use vstd::arithmetic::power::{lemma_pow_positive, pow};
use crate::spelling::{hex_lower, hex_upper};
use crate::digits::{lemma_mul_add_value, mul_add, nat_of, spec_mul_add};

verus! {

/// Whether a number literal has a `0x`, `0b` or `0o` prefix.
pub open spec fn has_base_prefix(t: Seq<u8>) -> bool {
    t.len() >= 2 && t[0] == '0' as u8 && (t[1] == 'x' as u8 || t[1] == 'X' as u8 || t[1]
        == 'b' as u8 || t[1] == 'B' as u8 || t[1] == 'o' as u8 || t[1] == 'O' as u8)
}

/// The value of a digit byte.
pub open spec fn digit_value(b: u8) -> int {
    if '0' as u8 <= b <= '9' as u8 {
        b - '0' as u8
    } else if 'a' as u8 <= b <= 'f' as u8 {
        b - 'a' as u8 + 10
    } else if 'A' as u8 <= b <= 'F' as u8 {
        b - 'A' as u8 + 10
    } else {
        16
    }
}

/// The base of a number literal.
pub open spec fn literal_base(t: Seq<u8>) -> int {
    if !has_base_prefix(t) {
        10
    } else if t[1] == 'x' as u8 || t[1] == 'X' as u8 {
        16
    } else if t[1] == 'b' as u8 || t[1] == 'B' as u8 {
        2
    } else {
        8
    }
}

/// Where the digits of a number literal start.
pub open spec fn digits_start(t: Seq<u8>) -> int {
    if has_base_prefix(t) {
        2
    } else {
        0
    }
}

/// The digits of `t[from..k]` read in `base`, the decimal point skipped.
pub open spec fn digits_value(t: Seq<u8>, from: int, k: int, base: int) -> int
    decreases k - from,
{
    if k <= from {
        0
    } else if t[k - 1] == '.' as u8 {
        digits_value(t, from, k - 1, base)
    } else {
        digits_value(t, from, k - 1, base) * base + digit_value(t[k - 1])
    }
}

/// Every byte of a number literal after its prefix is a digit of its base
/// or a decimal point.
pub open spec fn well_formed_literal(t: Seq<u8>) -> bool {
    forall|k: int|
        digits_start(t) <= k < t.len() ==> #[trigger] t[k] == '.' as u8 || (digit_value(t[k])
            < literal_base(t) && ('0' as u8 <= t[k] <= '9' as u8 || 'a' as u8 <= t[k] <= 'f' as u8
            || 'A' as u8 <= t[k] <= 'F' as u8))
}

/// The numerator of the exact value of a number literal, whose denominator
/// is the power of ten of the number of its decimals.
pub open spec fn literal_numerator(t: Seq<u8>) -> int {
    digits_value(t, digits_start(t), t.len() as int, literal_base(t))
}

proof fn lemma_run_in_class(s: Seq<u8>, i: int, c: CharClass)
    requires
        0 <= i <= s.len(),
    ensures
        forall|k: int| i <= k < run_end(s, i, c) ==> #[trigger] in_class(c, s[k]),
    decreases s.len() - i,
{
    if i < s.len() && in_class(c, s[i]) {
        lemma_run_in_class(s, i + 1, c);
    }
}

proof fn lemma_number_well_formed(s: Seq<u8>, i: int)
    requires
        0 <= i < s.len(),
        in_class(CharClass::Digit, s[i]),
    ensures
        i < number_end(s, i) <= s.len(),
        well_formed_literal(s.subrange(i, number_end(s, i))),
{
    let e = number_end(s, i);
    let t = s.subrange(i, e);
    let c1 = byte_at(s, i + 1);
    let c2 = byte_at(s, i + 2);
    let prefixed = s[i] == '0' as u8 && i + 2 < s.len() && (((c1 == 'x' as u8 || c1 == 'X' as u8)
        && in_class(CharClass::HexDigit, c2)) || ((c1 == 'b' as u8 || c1 == 'B' as u8) && in_class(
        CharClass::BinDigit,
        c2,
    )) || ((c1 == 'o' as u8 || c1 == 'O' as u8) && in_class(CharClass::OctDigit, c2)));
    if prefixed {
        let c = if c1 == 'x' as u8 || c1 == 'X' as u8 {
            CharClass::HexDigit
        } else if c1 == 'b' as u8 || c1 == 'B' as u8 {
            CharClass::BinDigit
        } else {
            CharClass::OctDigit
        };
        lemma_run_end(s, i + 2, c);
        lemma_run_in_class(s, i + 2, c);
        assert(e == run_end(s, i + 2, c));
        assert(t[0] == s[i] && t[1] == s[i + 1]);
        assert(has_base_prefix(t));
        assert forall|k: int| digits_start(t) <= k < t.len() implies #[trigger] t[k] == '.' as u8
            || (digit_value(t[k]) < literal_base(t) && ('0' as u8 <= t[k] <= '9' as u8 || 'a' as u8
            <= t[k] <= 'f' as u8 || 'A' as u8 <= t[k] <= 'F' as u8)) by {
            assert(t[k] == s[i + k]);
            assert(in_class(c, s[i + k]));
        }
    } else {
        lemma_run_end(s, i, CharClass::Digit);
        lemma_run_in_class(s, i, CharClass::Digit);
        let d = run_end(s, i, CharClass::Digit);
        let frac = byte_at(s, d) == '.' as u8 && in_class(CharClass::Digit, byte_at(s, d + 1));
        if frac {
            lemma_run_end(s, d + 1, CharClass::Digit);
            lemma_run_in_class(s, d + 1, CharClass::Digit);
        }
        assert forall|k: int| 0 <= k < t.len() implies #[trigger] t[k] == '.' as u8 || in_class(
            CharClass::Digit,
            t[k],
        ) by {
            assert(t[k] == s[i + k]);
        }
        if t.len() >= 2 {
            assert(t[1] == '.' as u8 || in_class(CharClass::Digit, t[1]));
        }
        assert(!has_base_prefix(t));
        assert forall|k: int| digits_start(t) <= k < t.len() implies #[trigger] t[k] == '.' as u8
            || (digit_value(t[k]) < literal_base(t) && ('0' as u8 <= t[k] <= '9' as u8 || 'a' as u8
            <= t[k] <= 'f' as u8 || 'A' as u8 <= t[k] <= 'F' as u8)) by {
            assert(t[k] == '.' as u8 || in_class(CharClass::Digit, t[k]));
        }
    }
}

proof fn lemma_lex_from_numbers(s: Seq<u8>, i: int)
    requires
        0 <= i <= s.len(),
        s.len() <= usize::MAX,
    ensures
        forall|k: int|
            0 <= k < lex_from(s, i).0.len() && (#[trigger] lex_from(s, i).0[k]).1 == Token::Number
                ==> well_formed_literal(
                s.subrange(lex_from(s, i).0[k].0 as int, lex_from(s, i).0[k].2 as int),
            ),
    decreases s.len() - i,
{
    if i < s.len() {
        lemma_lex_step(s, i);
        let (lx, j) = lex_step(s, i);
        lemma_lex_from_numbers(s, j);
        let ts = lex_from(s, j).0;
        if let Lexeme::Tok(t) = lx {
            let ts2 = lex_from(s, i).0;
            assert(ts2 == seq![(i as usize, t, j as usize)] + ts);
            if t == Token::Number {
                lemma_number_well_formed(s, i);
            }
            assert forall|k: int|
                0 <= k < ts2.len() && (#[trigger] ts2[k]).1 == Token::Number implies well_formed_literal(
                s.subrange(ts2[k].0 as int, ts2[k].2 as int),
            ) by {
                if k > 0 {
                    assert(ts2[k] == ts[k - 1]);
                }
            }
        }
    }
}

/// The text of every number token is a well-formed literal: after its
/// prefix, only digits of its base and decimal points.
pub proof fn lemma_number_tokens_well_formed(s: Seq<u8>)
    requires
        s.len() <= usize::MAX,
    ensures
        forall|k: int|
            0 <= k < spec_lex(s).0.len() && (#[trigger] spec_lex(s).0[k]).1 == Token::Number
                ==> well_formed_literal(
                s.subrange(spec_lex(s).0[k].0 as int, spec_lex(s).0[k].2 as int),
            ),
{
    lemma_lex_from_numbers(s, 0);
}



/// The number of decimals of `t[..k]`: the digits after its decimal point.
pub open spec fn decimals(t: Seq<u8>, k: int) -> nat
    decreases k,
{
    if k <= 0 || k > t.len() || t[k - 1] == '.' as u8 {
        0
    } else {
        decimals(t, k - 1) + 1
    }
}

/// The denominator of the exact value of a number literal.
pub open spec fn literal_denominator(t: Seq<u8>) -> int {
    if t.contains('.' as u8) {
        pow(10, decimals(t, t.len() as int))
    } else {
        1
    }
}

/// The exact value of a number literal, as numerator and denominator.
pub open spec fn literal_value(t: Seq<u8>) -> (int, int) {
    (literal_numerator(t), literal_denominator(t))
}

/// The digits of `digits_value(t, from, k, base)`, read one digit at a time.
pub open spec fn numerator_digits(t: Seq<u8>, from: int, k: int, base: nat) -> List<u16>
    decreases k - from,
{
    if k <= from {
        List::Nil
    } else if t[k - 1] == '.' as u8 {
        numerator_digits(t, from, k - 1, base)
    } else {
        spec_mul_add(numerator_digits(t, from, k - 1, base), base, digit_value(t[k - 1]) as nat)
    }
}

/// The digits of `10` to the power `decimals(t, k)`.
pub open spec fn denominator_digits(t: Seq<u8>, k: int) -> List<u16>
    decreases k,
{
    if k <= 0 || k > t.len() || t[k - 1] == '.' as u8 {
        List::Cons(1, Box::new(List::Nil))
    } else {
        spec_mul_add(denominator_digits(t, k - 1), 10, 0)
    }
}

/// The digits of the numerator of a literal's exact value.
pub open spec fn literal_num(t: Seq<u8>) -> List<u16> {
    numerator_digits(t, digits_start(t), t.len() as int, literal_base(t) as nat)
}

/// The digits of the denominator of a literal's exact value.
pub open spec fn literal_den(t: Seq<u8>) -> List<u16> {
    if t.contains('.' as u8) {
        denominator_digits(t, t.len() as int)
    } else {
        List::Cons(1, Box::new(List::Nil))
    }
}

proof fn lemma_numerator_digits(t: Seq<u8>, from: int, k: int, base: nat)
    ensures
        nat_of(numerator_digits(t, from, k, base)) == digits_value(t, from, k, base as int),
    decreases k - from,
{
    if k > from {
        lemma_numerator_digits(t, from, k - 1, base);
        if t[k - 1] != '.' as u8 {
            lemma_mul_add_value(
                numerator_digits(t, from, k - 1, base),
                base,
                digit_value(t[k - 1]) as nat,
            );
        }
    }
}

proof fn lemma_denominator_digits(t: Seq<u8>, k: int)
    ensures
        nat_of(denominator_digits(t, k)) == pow(10, decimals(t, k)),
    decreases k,
{
    reveal(pow);
    if k <= 0 || k > t.len() || t[k - 1] == '.' as u8 {
        assert(nat_of(List::<u16>::Nil) == 0);
    } else {
        lemma_denominator_digits(t, k - 1);
        lemma_mul_add_value(denominator_digits(t, k - 1), 10, 0);
        assert(decimals(t, k) == decimals(t, k - 1) + 1);
    }
}

/// The digit lists of a literal have the literal's exact value.
pub proof fn lemma_literal_digits(t: Seq<u8>)
    ensures
        nat_of(literal_num(t)) == literal_numerator(t),
        nat_of(literal_den(t)) == literal_denominator(t),
        literal_denominator(t) > 0,
{
    lemma_numerator_digits(t, digits_start(t), t.len() as int, literal_base(t) as nat);
    lemma_denominator_digits(t, t.len() as int);
    lemma_pow_positive(10, decimals(t, t.len() as int));
    assert(nat_of(List::<u16>::Nil) == 0);
}

/// The value of a digit byte, as the lexer reads it.
pub fn digit_of(b: u8) -> (r: u32)
    ensures
        r == digit_value(b),
{
    if '0' as u8 <= b && b <= '9' as u8 {
        (b - '0' as u8) as u32
    } else if 'a' as u8 <= b && b <= 'f' as u8 {
        (b - 'a' as u8 + 10) as u32
    } else if 'A' as u8 <= b && b <= 'F' as u8 {
        (b - 'A' as u8 + 10) as u32
    } else {
        16
    }
}

/// The numerator and denominator digits of the literal `src[s..e]`.
pub fn literal_digits(src: &[u8], s: usize, e: usize) -> (r: (List<u16>, List<u16>))
    requires
        s <= e <= src.len(),
    ensures
        r.0 == literal_num(src@.subrange(s as int, e as int)),
        r.1 == literal_den(src@.subrange(s as int, e as int)),
{
    let ghost t = src@.subrange(s as int, e as int);
    let prefixed = e - s >= 2 && src[s] == '0' as u8 && (src[s + 1] == 'x' as u8 || src[s + 1]
        == 'X' as u8 || src[s + 1] == 'b' as u8 || src[s + 1] == 'B' as u8 || src[s + 1]
        == 'o' as u8 || src[s + 1] == 'O' as u8);
    assert(prefixed == has_base_prefix(t));
    let base: u32 = if !prefixed {
        10
    } else if src[s + 1] == 'x' as u8 || src[s + 1] == 'X' as u8 {
        16
    } else if src[s + 1] == 'b' as u8 || src[s + 1] == 'B' as u8 {
        2
    } else {
        8
    };
    let from: usize = if prefixed {
        2
    } else {
        0
    };
    assert(base == literal_base(t) && from == digits_start(t));
    let mut num: List<u16> = List::Nil;
    let mut k = from;
    while k < e - s
        invariant
            s <= e <= src.len(),
            from <= k <= e - s,
            t == src@.subrange(s as int, e as int),
            base < 65536,
            num == numerator_digits(t, from as int, k as int, base as nat),
        decreases e - s - k,
    {
        let b = src[s + k];
        assert(b == t[k as int]);
        if b != '.' as u8 {
            num = mul_add(&num, base, digit_of(b));
        }
        k += 1;
    }
    let mut den: List<u16> = List::Cons(1, Box::new(List::Nil));
    let mut point = false;
    let mut k: usize = 0;
    while k < e - s
        invariant
            s <= e <= src.len(),
            k <= e - s,
            t == src@.subrange(s as int, e as int),
            den == denominator_digits(t, k as int),
            point == (exists|j: int| 0 <= j < k && t[j] == '.' as u8),
        decreases e - s - k,
    {
        let b = src[s + k];
        assert(b == t[k as int]);
        if b == '.' as u8 {
            den = List::Cons(1, Box::new(List::Nil));
            point = true;
        } else {
            den = mul_add(&den, 10, 0);
        }
        k += 1;
    }
    proof {
        if point {
            let j = choose|j: int| 0 <= j < t.len() && t[j] == '.' as u8;
            assert(t[j] == '.' as u8);
            assert(t.contains('.' as u8));
        }
        if t.contains('.' as u8) {
            let j = choose|j: int| 0 <= j < t.len() && t[j] == '.' as u8;
            assert(0 <= j < k && t[j] == '.' as u8);
        }
    }
    if point {
        (num, den)
    } else {
        (num, List::Cons(1, Box::new(List::Nil)))
    }
}

/// The valuation that gives each literal of `src` its exact value.
pub open spec fn source_values(src: Seq<u8>) -> spec_fn(Span) -> (int, int) {
    |s: Span| literal_value(src.subrange(s.start as int, s.end as int))
}

/// The literal at `span` of `src`, with the digit lists of its text, fits
/// the exact valuation of the source.
pub proof fn lemma_source_value_fits(src: Seq<u8>, span: Span)
    ensures
        literal_fits(
            Number::Literal {
                span,
                num: literal_num(src.subrange(span.start as int, span.end as int)),
                den: literal_den(src.subrange(span.start as int, span.end as int)),
            },
            source_values(src),
        ),
{
    lemma_literal_digits(src.subrange(span.start as int, span.end as int));
}

/// The value recorded on each literal of `n` is the value `lit` gives its
/// span.
pub open spec fn literal_fits(n: Number, lit: spec_fn(Span) -> (int, int)) -> bool {
    match n {
        Number::Literal { span, num, den } => lit(span) == (nat_of(num) as int, nat_of(den) as int),
        _ => true,
    }
}


/// `lit` is a faithful valuation of every literal of `e`.
pub open spec fn literals_fit(e: Expr, lit: spec_fn(Span) -> (int, int)) -> bool
    decreases e,
{
    match e {
        Expr::Value { value: Value::Number(n), .. } => literal_fits(n, lit),
        Expr::Dot { lhs, .. } => literals_fit(*lhs, lit),
        Expr::Property { object, .. } => literals_fit(*object, lit),
        Expr::Repr { args, .. } => literals_fit_list(*args, lit),
        Expr::UnOp { opr, .. } => literals_fit(*opr, lit),
        Expr::BinOp { lhs, rhs, .. } => literals_fit(*lhs, lit) && literals_fit(*rhs, lit),
        Expr::StructLiteral { fields, .. } => literals_fit_fields(*fields, lit),
        _ => true,
    }
}

pub open spec fn literals_fit_list(l: List<Expr>, lit: spec_fn(Span) -> (int, int)) -> bool
    decreases l,
{
    match l {
        List::Nil => true,
        List::Cons(e, rest) => literals_fit(e, lit) && literals_fit_list(*rest, lit),
    }
}

pub open spec fn literals_fit_fields(l: List<FieldValue>, lit: spec_fn(Span) -> (int, int)) -> bool
    decreases l,
{
    match l {
        List::Nil => true,
        List::Cons(f, rest) => literals_fit(f.value, lit) && literals_fit_fields(*rest, lit),
    }
}


pub open spec fn literals_fit_kwargs(l: List<Kwarg>, lit: spec_fn(Span) -> (int, int)) -> bool
    decreases l,
{
    match l {
        List::Nil => true,
        List::Cons(k, rest) => literals_fit(k.value, lit) && literals_fit_kwargs(*rest, lit),
    }
}

/// `lit` is a faithful valuation of every literal of the statement.
pub open spec fn literals_fit_stmt(st: Stmt, lit: spec_fn(Span) -> (int, int)) -> bool
    decreases st,
{
    match st {
        Stmt::Repeat { times, body } => literals_fit(times, lit) && literals_fit_stmts(*body, lit),
        Stmt::Forever { body, .. } => literals_fit_stmts(*body, lit),
        Stmt::Branch { cond, if_body, else_body } => literals_fit(cond, lit) && literals_fit_stmts(
            *if_body,
            lit,
        ) && literals_fit_stmts(*else_body, lit),
        Stmt::Until { cond, body } => literals_fit(cond, lit) && literals_fit_stmts(*body, lit),
        Stmt::SetVar { value, .. } => literals_fit(value, lit),
        Stmt::ChangeVar { value, .. } => literals_fit(value, lit),
        Stmt::AddToList { value, .. } => literals_fit(value, lit),
        Stmt::DeleteListIndex { index, .. } => literals_fit(index, lit),
        Stmt::InsertAtList { index, value, .. } => literals_fit(index, lit) && literals_fit(
            value,
            lit,
        ),
        Stmt::SetListIndex { index, value, .. } => literals_fit(index, lit) && literals_fit(
            value,
            lit,
        ),
        Stmt::Block { args, kwargs, .. } => literals_fit_list(*args, lit) && literals_fit_kwargs(
            *kwargs,
            lit,
        ),
        Stmt::ProcCall { args, kwargs, .. } => literals_fit_list(*args, lit)
            && literals_fit_kwargs(*kwargs, lit),
        Stmt::FuncCall { args, kwargs, .. } => literals_fit_list(*args, lit)
            && literals_fit_kwargs(*kwargs, lit),
        _ => true,
    }
}

pub open spec fn literals_fit_stmts(l: List<Stmt>, lit: spec_fn(Span) -> (int, int)) -> bool
    decreases l,
{
    match l {
        List::Nil => true,
        List::Cons(st, rest) => literals_fit_stmt(st, lit) && literals_fit_stmts(*rest, lit),
    }
}


pub open spec fn literals_fit_procs(l: List<Proc>, lit: spec_fn(Span) -> (int, int)) -> bool
    decreases l,
{
    match l {
        List::Nil => true,
        List::Cons(x, rest) => literals_fit_stmts(x.body, lit) && literals_fit_procs(*rest, lit),
    }
}


pub open spec fn literals_fit_funcs(l: List<Func>, lit: spec_fn(Span) -> (int, int)) -> bool
    decreases l,
{
    match l {
        List::Nil => true,
        List::Cons(x, rest) => literals_fit_stmts(x.body, lit) && literals_fit_funcs(*rest, lit),
    }
}


pub open spec fn literals_fit_events(l: List<Event>, lit: spec_fn(Span) -> (int, int)) -> bool
    decreases l,
{
    match l {
        List::Nil => true,
        List::Cons(x, rest) => literals_fit_stmts(x.body, lit) && literals_fit_events(*rest, lit),
    }
}

/// `lit` is a faithful valuation of every literal of the scripts of a
/// sprite.
pub open spec fn literals_fit_sprite(sp: Sprite, lit: spec_fn(Span) -> (int, int)) -> bool {
    literals_fit_procs(sp.procs, lit) && literals_fit_funcs(sp.funcs, lit) && literals_fit_events(
        sp.events,
        lit,
    )
}


/// The value of a digit byte is its place among the digits of base 16, in
/// lower or upper case; any other byte has no value below 16.
pub proof fn lemma_digit_values()
    ensures
        forall|k: int|
            0 <= k < 16 ==> digit_value(#[trigger] hex_lower()[k]) == k && digit_value(
                hex_upper()[k],
            ) == k,
        forall|b: u8|
            #[trigger] digit_value(b) < 16 ==> b == hex_lower()[digit_value(b)] || b
                == hex_upper()[digit_value(b)],
{
    assert forall|k: int| 0 <= k < 16 implies digit_value(#[trigger] hex_lower()[k]) == k
        && digit_value(hex_upper()[k]) == k by {
        if k == 0 {
            assert(hex_lower()[0] == '0' as u8 && hex_upper()[0] == '0' as u8);
        } else if k == 1 {
            assert(hex_lower()[1] == '1' as u8 && hex_upper()[1] == '1' as u8);
        } else if k == 2 {
            assert(hex_lower()[2] == '2' as u8 && hex_upper()[2] == '2' as u8);
        } else if k == 3 {
            assert(hex_lower()[3] == '3' as u8 && hex_upper()[3] == '3' as u8);
        } else if k == 4 {
            assert(hex_lower()[4] == '4' as u8 && hex_upper()[4] == '4' as u8);
        } else if k == 5 {
            assert(hex_lower()[5] == '5' as u8 && hex_upper()[5] == '5' as u8);
        } else if k == 6 {
            assert(hex_lower()[6] == '6' as u8 && hex_upper()[6] == '6' as u8);
        } else if k == 7 {
            assert(hex_lower()[7] == '7' as u8 && hex_upper()[7] == '7' as u8);
        } else if k == 8 {
            assert(hex_lower()[8] == '8' as u8 && hex_upper()[8] == '8' as u8);
        } else if k == 9 {
            assert(hex_lower()[9] == '9' as u8 && hex_upper()[9] == '9' as u8);
        } else if k == 10 {
            assert(hex_lower()[10] == 'a' as u8 && hex_upper()[10] == 'A' as u8);
        } else if k == 11 {
            assert(hex_lower()[11] == 'b' as u8 && hex_upper()[11] == 'B' as u8);
        } else if k == 12 {
            assert(hex_lower()[12] == 'c' as u8 && hex_upper()[12] == 'C' as u8);
        } else if k == 13 {
            assert(hex_lower()[13] == 'd' as u8 && hex_upper()[13] == 'D' as u8);
        } else if k == 14 {
            assert(hex_lower()[14] == 'e' as u8 && hex_upper()[14] == 'E' as u8);
        } else if k == 15 {
            assert(hex_lower()[15] == 'f' as u8 && hex_upper()[15] == 'F' as u8);
        }
    }
    assert forall|b: u8| #[trigger] digit_value(b) < 16 implies b == hex_lower()[digit_value(b)]
        || b == hex_upper()[digit_value(b)] by {
        if b == '0' as u8 {
            assert(hex_lower()[0] == '0' as u8 && hex_upper()[0] == '0' as u8);
        } else if b == '1' as u8 {
            assert(hex_lower()[1] == '1' as u8 && hex_upper()[1] == '1' as u8);
        } else if b == '2' as u8 {
            assert(hex_lower()[2] == '2' as u8 && hex_upper()[2] == '2' as u8);
        } else if b == '3' as u8 {
            assert(hex_lower()[3] == '3' as u8 && hex_upper()[3] == '3' as u8);
        } else if b == '4' as u8 {
            assert(hex_lower()[4] == '4' as u8 && hex_upper()[4] == '4' as u8);
        } else if b == '5' as u8 {
            assert(hex_lower()[5] == '5' as u8 && hex_upper()[5] == '5' as u8);
        } else if b == '6' as u8 {
            assert(hex_lower()[6] == '6' as u8 && hex_upper()[6] == '6' as u8);
        } else if b == '7' as u8 {
            assert(hex_lower()[7] == '7' as u8 && hex_upper()[7] == '7' as u8);
        } else if b == '8' as u8 {
            assert(hex_lower()[8] == '8' as u8 && hex_upper()[8] == '8' as u8);
        } else if b == '9' as u8 {
            assert(hex_lower()[9] == '9' as u8 && hex_upper()[9] == '9' as u8);
        } else if b == 'A' as u8 {
            assert(hex_lower()[10] == 'a' as u8 && hex_upper()[10] == 'A' as u8);
        } else if b == 'B' as u8 {
            assert(hex_lower()[11] == 'b' as u8 && hex_upper()[11] == 'B' as u8);
        } else if b == 'C' as u8 {
            assert(hex_lower()[12] == 'c' as u8 && hex_upper()[12] == 'C' as u8);
        } else if b == 'D' as u8 {
            assert(hex_lower()[13] == 'd' as u8 && hex_upper()[13] == 'D' as u8);
        } else if b == 'E' as u8 {
            assert(hex_lower()[14] == 'e' as u8 && hex_upper()[14] == 'E' as u8);
        } else if b == 'F' as u8 {
            assert(hex_lower()[15] == 'f' as u8 && hex_upper()[15] == 'F' as u8);
        } else if b == 'a' as u8 {
            assert(hex_lower()[10] == 'a' as u8 && hex_upper()[10] == 'A' as u8);
        } else if b == 'b' as u8 {
            assert(hex_lower()[11] == 'b' as u8 && hex_upper()[11] == 'B' as u8);
        } else if b == 'c' as u8 {
            assert(hex_lower()[12] == 'c' as u8 && hex_upper()[12] == 'C' as u8);
        } else if b == 'd' as u8 {
            assert(hex_lower()[13] == 'd' as u8 && hex_upper()[13] == 'D' as u8);
        } else if b == 'e' as u8 {
            assert(hex_lower()[14] == 'e' as u8 && hex_upper()[14] == 'E' as u8);
        } else if b == 'f' as u8 {
            assert(hex_lower()[15] == 'f' as u8 && hex_upper()[15] == 'F' as u8);
        }
    }
}

} // verus!
