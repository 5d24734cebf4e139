//! Arithmetic expressions: scanning text into tokens and parsing the tokens
//! into a tree by precedence climbing.

pub mod lexer;
pub mod parser;
pub mod precedence;
pub mod token;
