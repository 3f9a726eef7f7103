//! Lexical analysis and a minimal parser for the Monkey programming language.
//!
//! The tokenizer scans a byte-indexed source buffer and produces one token per
//! request; the parser assembles `let` bindings from the token stream.

pub mod ast;
pub mod lexer;
pub mod text;
pub mod token;
