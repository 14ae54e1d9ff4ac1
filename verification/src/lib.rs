//! A hand-written lexical analyzer for a small C-like language.
//!
//! The lexer turns raw source text into a stream of classified tokens, each
//! carrying the 1-based line and column at which it starts, and then folds
//! every run of consecutive line-break tokens into a single boundary marker.
//! Every function is specified against a mathematical model of the scan
//! (`lexer::spec_lex`), so the exact token list produced for any input is
//! pinned down by the contracts.

pub mod chars;
pub mod cursor;
pub mod keyword;
pub mod laws;
pub mod lexer;
pub mod stream;
pub mod token;
pub mod types;
