//! A lexical scanner for a small C-like language.
//!
//! The scanner turns source text into a sequence of typed tokens that carry
//! their line and column. Every executable function is stated against a
//! mathematical model of the source (a `Seq<char>`) and of the token stream.

pub mod token;
pub mod position;
pub mod std_specs;
pub mod grammar;
pub mod lexer;
pub mod util;
pub mod scanner;
pub mod laws;
pub mod parser;
