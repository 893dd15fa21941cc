//! A lexer, parser, type checker, interpreter and Rust code generator for the TSST language.
pub mod text;
pub mod token;
pub mod lexer;
pub mod ast;
pub mod parse_spec;
pub mod parse_tokens;
pub mod parse_expr;
pub mod parse_stmt;
pub mod parser;
pub mod pipeline;
pub mod check_spec;
pub mod typechecker;
pub mod check_laws;
pub mod runtime;
pub mod compile_spec;
pub mod compiler;
pub mod compile_laws;
pub mod run_spec;
pub mod value_views;
pub mod values;
pub mod interpreter;
pub mod run_laws;
pub mod project;
pub mod replay_laws;
pub mod value_laws;
pub mod lex_laws;
pub mod parse_laws;
