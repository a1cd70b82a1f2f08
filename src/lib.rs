//! A lexer for the Monkey scripting language: source text in, one token per call out.
pub mod lexer;
pub mod token;
pub mod laws;
