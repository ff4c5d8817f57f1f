//! The tokens of goboscript.
use vstd::prelude::*;

verus! {

#[derive(Clone, Copy, Debug, PartialEq, Eq, Structural)]
pub enum Token {
    /// An identifier that is not a keyword.
    Name,
    /// `$` followed by an identifier.
    Arg,
    /// A number literal: decimal, `0x`, `0b` or `0o`, with an optional
    /// decimal fraction.
    Number,
    /// A string literal, quotes included.
    Str,
    Costumes,
    Sounds,
    Var,
    List,
    Let,
    Struct,
    Enum,
    Function,
    Nowarp,
    Return,
    OnFlag,
    OnClick,
    OnClone,
    OnKey,
    On,
    OnBackdrop,
    If,
    Else,
    While,
    Repeat,
    Forever,
    Delete,
    Insert,
    At,
    To,
    Show,
    Hide,
    True,
    False,
    Div,
    In,
    Round,
    Abs,
    Floor,
    Ceil,
    Sqrt,
    Sin,
    Cos,
    Tan,
    Asin,
    Acos,
    Atan,
    Ln,
    Log,
    Antiln,
    Antilog,
    Length,
    LParen,
    RParen,
    LBrace,
    RBrace,
    LBracket,
    RBracket,
    Comma,
    Semi,
    Colon,
    Dot,
    Plus,
    Minus,
    Star,
    Slash,
    Percent,
    Amp,
    AmpAmp,
    PipePipe,
    Bang,
    Eq,
    Ne,
    Lt,
    Le,
    Gt,
    Ge,
    Assign,
    PlusAssign,
    MinusAssign,
    StarAssign,
    SlashAssign,
    PercentAssign,
    AmpAssign,
    DivAssign,
    PlusPlus,
    MinusMinus,
    /// `%define`
    Define,
    /// `%undef`
    Undef,
}

/// A token with the byte range it was read from.
pub type SpannedToken = (usize, Token, usize);

} // verus!
