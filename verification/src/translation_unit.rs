//! A source file as it is handed to the parser.
use vstd::prelude::*;

verus! {

/// The text of one source file.
pub struct TranslationUnit {
    pub text: Vec<u8>,
}

} // verus!
