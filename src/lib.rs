pub mod ast;
pub mod chars;
pub mod checker;
pub mod cli;
pub mod engine;
pub mod grammar;
pub mod input;
pub mod lexer;
pub mod parser;
pub mod repl;
pub mod shell_err;
pub mod state;
pub mod tokens;
