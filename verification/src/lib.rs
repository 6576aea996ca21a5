//! A lexer for a small Lua-like scripting language.
//!
//! The scanner turns raw source text into a flat, ordered sequence of
//! classified tokens in a single left-to-right pass with one character of
//! lookahead.  Its behaviour is specified by the mathematical scanner in
//! [`scan`], and the executable [`lexer::Lexer`] is proved to produce exactly
//! the token sequence that the mathematical scanner describes.

pub mod laws;
pub mod lexer;
pub mod scan;
pub mod token;
