pub mod number_parser;
pub mod scanner;
pub mod spelling;
pub mod tokens;
