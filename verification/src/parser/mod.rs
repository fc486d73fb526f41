pub mod ast;
pub mod grammar;
pub mod operations;
pub mod parse_func;
pub mod parser;
pub mod precedence;
