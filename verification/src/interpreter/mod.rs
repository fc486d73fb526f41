pub mod ast_interpreter;
