//! Problems found in a source, each with the span where it was found.
use vstd::prelude::*;

use crate::ast::Span;

verus! {

#[derive(Clone, Copy, Debug, PartialEq, Eq)]
pub enum DiagnosticKind {
    /// Bytes that start no token.
    InvalidToken,
    /// A string literal without its closing quote.
    UnterminatedString,
    /// A block comment without its closing `*/`.
    UnterminatedComment,
    /// A `%define` or `%undef` that is not followed by a name on its line.
    MacroNameExpected,
    /// A `%undef` of a name that is not defined.
    UndefinedMacro,
    /// A token that the grammar does not allow where it stands.
    UnrecognizedToken,
    /// The input ended where the grammar needs more.
    UnrecognizedEof,
}

#[derive(Clone, Copy, Debug, PartialEq, Eq)]
pub struct Diagnostic {
    pub kind: DiagnosticKind,
    pub span: Span,
}

} // verus!
