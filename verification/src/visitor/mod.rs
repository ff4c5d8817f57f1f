//! Passes over the syntax tree.
pub mod pass5;
