//! A single-pass scanner for Lox source text, with a small parser for flat
//! expressions over already separated lexemes.

pub mod chars;
pub mod grammar;
pub mod machine;
pub mod number;
pub mod parser;
pub mod scan_laws;
pub mod token;
pub mod token_handler;
