//! The parsing pipeline of a sprite source: tokenize, preprocess, parse.
use vstd::prelude::*;

use crate::ast::Sprite;
use crate::diagnostic::Diagnostic;
use crate::grammar::{parse_tokens, spec_sprite, token_texts};
use crate::lexer::{lemma_lex_ordered, lex, spec_lex};
use crate::literal::{literals_fit_sprite, source_values};
use crate::pre_processor::{lemma_preprocess_fits, preprocess_tokens, spec_preprocess};
use crate::token::SpannedToken;
use crate::translation_unit::TranslationUnit;

verus! {

/// The diagnostic of a stage, as a sequence of zero or one diagnostics.
pub open spec fn opt_seq(d: Option<Diagnostic>) -> Seq<Diagnostic> {
    match d {
        Some(d) => seq![d],
        None => Seq::empty(),
    }
}

/// What parsing a source gives: the sprite, then the diagnostics of the
/// tokenizer, of the preprocessor and of the parser, in that order.
pub open spec fn spec_parse(text: Seq<u8>) -> (Sprite, Seq<Diagnostic>) {
    let (tokens, lex_diagnostics) = spec_lex(text);
    let (tokens, preprocess_diagnostic) = spec_preprocess(text, tokens);
    let (sprite, parse_diagnostic) = spec_sprite(token_texts(text, tokens), tokens);
    (sprite, lex_diagnostics + opt_seq(preprocess_diagnostic) + opt_seq(parse_diagnostic))
}

/// Tokenize the source code from a translation unit
fn tokenize(translation_unit: &TranslationUnit) -> (r: (Vec<SpannedToken>, Vec<Diagnostic>))
    requires
        vstd::utf8::valid_utf8(translation_unit.text@),
    ensures
        r.0@ == spec_lex(translation_unit.text@).0,
        r.1@ == spec_lex(translation_unit.text@).1,
{
    lex(translation_unit.text.as_slice())
}

/// Apply preprocessing to the tokens
fn preprocess(text: &[u8], tokens: Vec<SpannedToken>) -> (r: (Vec<SpannedToken>, Option<Diagnostic>))
    requires
        crate::pre_processor::tokens_in(text@, tokens@),
    ensures
        r.0@ == spec_preprocess(text@, tokens@).0,
        r.1 == spec_preprocess(text@, tokens@).1,
{
    preprocess_tokens(text, &tokens)
}

/// Parse the tokens into a sprite AST
fn parse_sprite(text: &[u8], tokens: Vec<SpannedToken>) -> (r: (Sprite, Vec<Diagnostic>))
    requires
        crate::grammar::tokens_fit(text@, tokens@),
    ensures
        r.0 == spec_sprite(token_texts(text@, tokens@), tokens@).0,
        r.1@ == opt_seq(spec_sprite(token_texts(text@, tokens@), tokens@).1),
        literals_fit_sprite(r.0, source_values(text@)),
{
    let (sprite, error) = parse_tokens(text, &tokens);
    let mut diagnostics = Vec::new();
    if let Some(parse_error) = error {
        diagnostics.push(parse_error);
    }
    assert(diagnostics@ =~= opt_seq(error));
    (sprite, diagnostics)
}

/// Parse a translation unit into a sprite AST
///
/// This function performs the complete parsing pipeline:
/// 1. Tokenizes the source code
/// 2. Applies preprocessing transformations
/// 3. Parses the tokens into an AST
///
/// Returns the parsed sprite and any diagnostics encountered during parsing.
pub fn parse(translation_unit: &TranslationUnit) -> (r: (Sprite, Vec<Diagnostic>))
    requires
        vstd::utf8::valid_utf8(translation_unit.text@),
    ensures
        r.0 == spec_parse(translation_unit.text@).0,
        r.1@ == spec_parse(translation_unit.text@).1,
        literals_fit_sprite(r.0, source_values(translation_unit.text@)),
{
    let text = translation_unit.text.as_slice();
    let (tokens, tokenize_diagnostics) = tokenize(translation_unit);
    let ghost lexed = tokens@;
    proof {
        assert(text@.len() == text.len());
        assert(lexed.len() == tokens.len());
        lemma_lex_ordered(text@);
        assert(crate::pre_processor::tokens_in(text@, tokens@)) by {
            assert forall|k: int| 0 <= k < tokens@.len() implies (#[trigger] tokens@[k]).0
                <= tokens@[k].2 <= text@.len() by {
                assert(tokens@[k] == spec_lex(text@).0[k]);
            }
        }
    }
    let (tokens, preprocess_diagnostic) = preprocess(text, tokens);
    proof {
        lemma_preprocess_fits(text@, lexed);
    }
    let (sprite, mut parse_diagnostics) = parse_sprite(text, tokens);
    let mut all_diagnostics = tokenize_diagnostics;
    if let Some(d) = preprocess_diagnostic {
        all_diagnostics.push(d);
    }
    assert(all_diagnostics@ =~= spec_lex(text@).1 + opt_seq(preprocess_diagnostic));
    all_diagnostics.append(&mut parse_diagnostics);
    (sprite, all_diagnostics)
}

} // verus!
