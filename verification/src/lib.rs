//! A hand-written lexical scanner for a small experimental language: it
//! converts raw source text into a sequence of positioned tokens (keywords,
//! operators, scope markers, whitespace, and an unknown catch-all). The
//! scanner only classifies spans of the input and reports their boundaries;
//! building a parse tree or validating syntax is left to consumers.

pub mod cursor;
pub mod laws;
pub mod token;
