//! A backtracking analyzer-combinator toolkit over arbitrary symbol streams,
//! and the lexical analyzer of a small typed language built on it.
//!
//! - `stream`: the cursor over an input sequence.
//! - `analyzer`: the `Analyzer` abstraction, the leaf analyzers and the
//!   combinators. Each states, as a relation over the input, which results it
//!   may give and where it leaves the cursor.
//! - `token`: what the lexer produces.
//! - `grammar`: the lexical grammar as functions of the input.
//! - `lexer`: the rules, built from the combinators and proved to follow the
//!   grammar.
//! - `repeat`: what a repetition of a deterministic analyzer yields.
//! - `laws`: what holds of the grammar as a whole.
//! - `text`: character classes, numerals and strings.
//! - `encode`: little-endian encoding of unsigned integers.

pub mod analyzer;
pub mod encode;
pub mod grammar;
pub mod laws;
pub mod lexer;
pub mod repeat;
pub mod stream;
pub mod text;
pub mod token;
