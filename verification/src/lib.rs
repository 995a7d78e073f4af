pub mod ast;
pub mod ast_clone;
pub mod environment;
pub mod error;
pub mod lexer;
pub mod parser;
pub mod resolver;
pub mod runner;
pub mod runtime;
pub mod token;
