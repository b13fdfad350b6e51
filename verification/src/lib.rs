//! Front end of a compiler for a small, statically typed C-like language.
//!
//! The pipeline has three stages, each with a verified contract:
//! a lexer that turns source text into positioned tokens, a
//! recursive-descent parser that builds an abstract syntax tree, and a
//! semantic analyzer (name resolution over a scoped symbol table,
//! followed by type checking).

pub mod token;
pub mod ast;
pub mod symbol;
pub mod lexer;
pub mod parse_error;
pub mod parser;
pub mod expression;
pub mod statements;
pub mod function;
pub mod semantic_error;
pub mod resolver;
pub mod type_checker;
pub mod analyzer;

pub use lexer::Lexer;
pub use parser::Parser;
pub use analyzer::Analyzer;
pub use analyzer::Analyzer as SemanticAnalyzer;
