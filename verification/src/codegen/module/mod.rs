pub mod output;
pub mod registers;
