//! A goboscript front end: the tokenizer, the preprocessor and the parser
//! of sprite sources, and the number obfuscation pass.
pub mod ast;
pub mod comments;
pub mod diagnostic;
pub mod digits;
pub mod grammar;
pub mod lexer;
pub mod literal;
pub mod parser;
pub mod spelling;
pub mod pre_processor;
pub mod token;
pub mod translation_unit;
pub mod visitor;
