//! lacon: lexer, layout pass, parser and evaluator of a small functional
//! configuration language.

pub mod token;
pub mod text;
pub mod ast;
pub mod grammar;
pub mod parser;
pub mod host;
pub mod value;
pub mod semantics;
pub mod display;
pub mod eval;
pub mod layout;
pub mod lexer;
pub mod report;
pub mod pipeline;
