pub mod error;
pub mod scanner_error;
