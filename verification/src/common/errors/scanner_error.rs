//! A scanning error that names only its line.

use vstd::prelude::*;
use crate::utils::text::{decimal, push_decimal, push_text};

verus! {

/// A scanning error: the line where it arose and what was wrong.
#[derive(Debug)]
pub struct ScannerError {
    pub line: usize,
    pub message: String,
}

impl Clone for ScannerError {
    fn clone(&self) -> (e: Self)
        ensures
            e.line == self.line,
            e.message@ == self.message@,
    {
        Self { line: self.line, message: self.message.clone() }
    }
}

impl ScannerError {
    pub fn new(line: usize, message: String) -> (e: Self)
        ensures
            e.line == line,
            e.message == message,
    {
        Self { line, message }
    }

    /// The text shown for this error.
    pub open spec fn text(&self) -> Seq<char> {
        "[line "@ + decimal(self.line as nat) + "] Error: "@ + self.message@
    }

    /// The text shown for this error: its line and its message.
    pub fn describe(&self) -> (s: String)
        ensures
            s@ == self.text(),
    {
        let mut s = String::new();
        push_text(&mut s, "[line ");
        push_decimal(&mut s, self.line as u64);
        push_text(&mut s, "] Error: ");
        push_text(&mut s, self.message.as_str());
        s
    }
}

} // verus!
