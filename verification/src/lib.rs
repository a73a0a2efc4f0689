//! The front end of the JMC compiler: tokens, the tokenizer, the lexer that
//! recognises top-level forms, and the diagnostics that all of them report.

pub mod arguments;
pub mod configuration;
pub mod datapack;
pub mod decorator_parse;
pub mod exception;
pub mod foreign;
pub mod forms;
pub mod grammar;
pub mod header;
pub mod lexer;
pub mod lexer_func_content;
pub mod pack_version;
pub mod scanner;
pub mod text;
pub mod theorems;
pub mod token;
pub mod tokenizer;
pub mod utils;
