//! Lexer and parser for RASM, a section-structured assembly text for a
//! register virtual machine.
//!
//! - `lexer` turns source text into spanned tokens (`token`); whitespace and
//!   `#` comments give none, and unreadable text becomes `Error` tokens.
//! - `grammar` states the grammar over token kinds; `parser` implements it
//!   and builds the syntax tree of `ast`, or reports every failure, anchored
//!   to a token span, resuming at the next `section` keyword after each.
//! - `diagnostic` words tokens and failures for a reader.
//! - `laws` and `trivia` prove general facts about the lexer and the
//!   grammar.

pub mod chars;
pub mod token;
pub mod lexer;
pub mod ast;
pub mod grammar;
pub mod parser;
pub mod laws;
pub mod diagnostic;
pub mod trivia;
