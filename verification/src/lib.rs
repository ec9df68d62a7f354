//! Front end of the sharc compiler: spans, tokens, diagnostics and the parser,
//! each function stated by a contract and proved against it.

pub mod analyzer;
pub mod args;
pub mod bigint;
pub mod lexer;
pub mod paint;
pub mod parser;
pub mod render;
pub mod report;
pub mod span;
pub mod text;
