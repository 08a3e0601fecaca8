//! A JavaScript parser for scripts, modules and lone expressions, with the early errors of the
//! language.

pub mod ast;
pub mod lexer;
pub mod parser;
pub mod span;
pub mod text;
