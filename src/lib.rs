//! Front end and tree-walking evaluator for a small dynamically-typed
//! expression language: a lexer, a recursive-descent parser, an
//! s-expression printer and an evaluator, each with a verified contract.
pub mod expression;
pub mod interpreter;
pub mod lox;
pub mod number;
pub mod parser;
pub mod runtime_error;
pub mod scanner;
pub mod token;
