//! The errors of the compiler, one flat enumeration for all stages.

use vstd::prelude::*;
use crate::utils::text::{decimal, push_decimal, push_text};

verus! {

/// What went wrong, with a human-readable message; errors of the scanner and
/// of the parser also carry the line and the column where they arose.
#[derive(Debug, PartialEq, Eq)]
pub enum CompilerErrorKind {
    /// A broken invariant that no other kind covers.
    InternalError(String),
    /// The output sink failed.
    FileError(String),
    /// The code generator ran out of registers or met an unsupported operator.
    CodeGeneratorError(String),
    /// A malformed character stream: line, column, message.
    ScannerError(usize, usize, String),
    /// A grammar violation: line, column, message.
    CompilerError(usize, usize, String),
}

/// The mathematical content of a [`CompilerErrorKind`].
pub enum ErrorView {
    InternalError(Seq<char>),
    FileError(Seq<char>),
    CodeGeneratorError(Seq<char>),
    ScannerError(nat, nat, Seq<char>),
    CompilerError(nat, nat, Seq<char>),
}

impl View for CompilerErrorKind {
    type V = ErrorView;

    open spec fn view(&self) -> ErrorView {
        match *self {
            CompilerErrorKind::InternalError(m) => ErrorView::InternalError(m@),
            CompilerErrorKind::FileError(m) => ErrorView::FileError(m@),
            CompilerErrorKind::CodeGeneratorError(m) => ErrorView::CodeGeneratorError(m@),
            CompilerErrorKind::ScannerError(l, c, m) => ErrorView::ScannerError(
                l as nat,
                c as nat,
                m@,
            ),
            CompilerErrorKind::CompilerError(l, c, m) => ErrorView::CompilerError(
                l as nat,
                c as nat,
                m@,
            ),
        }
    }
}

/// The content of a result whose value is plain: the value itself, or the
/// content of the error.
pub open spec fn plain_result_view<T>(r: Result<T, CompilerErrorKind>) -> Result<T, ErrorView> {
    match r {
        Ok(value) => Ok(value),
        Err(e) => Err(e@),
    }
}

/// The part of a positioned error's text that names the position and
/// introduces the message.
pub open spec fn position_text(line: nat, column: nat) -> Seq<char> {
    "(line: "@ + decimal(line) + ", column: "@ + decimal(column) + ", message: "@
}

impl ErrorView {
    /// The text shown for an error.
    pub open spec fn text(self) -> Seq<char> {
        match self {
            ErrorView::ScannerError(l, c, m) => "Scanner Error "@ + position_text(l, c) + m + ")"@,
            ErrorView::CompilerError(l, c, m) => "Compiler Error: "@ + position_text(l, c) + m
                + ")"@,
            ErrorView::FileError(m) => "File operation Error: "@ + m,
            ErrorView::CodeGeneratorError(m) => "Code Generator Error: "@ + m,
            ErrorView::InternalError(m) => "Internal Error: "@ + m,
        }
    }
}

/// Appends the position and the message of a positioned error, and the
/// closing bracket.
fn push_positioned(buf: &mut String, line: usize, column: usize, message: &String)
    ensures
        final(buf)@ == old(buf)@ + position_text(line as nat, column as nat) + message@ + ")"@,
{
    push_text(buf, "(line: ");
    push_decimal(buf, line as u64);
    push_text(buf, ", column: ");
    push_decimal(buf, column as u64);
    push_text(buf, ", message: ");
    push_text(buf, message.as_str());
    push_text(buf, ")");
}

impl CompilerErrorKind {
    /// The text shown for this error: its kind, its position if it has one,
    /// and its message.
    pub fn describe(&self) -> (s: String)
        ensures
            s@ == self@.text(),
    {
        let mut s = String::new();
        match self {
            CompilerErrorKind::ScannerError(line, column, message) => {
                push_text(&mut s, "Scanner Error ");
                push_positioned(&mut s, *line, *column, message);
            },
            CompilerErrorKind::CompilerError(line, column, message) => {
                push_text(&mut s, "Compiler Error: ");
                push_positioned(&mut s, *line, *column, message);
            },
            CompilerErrorKind::FileError(message) => {
                push_text(&mut s, "File operation Error: ");
                push_text(&mut s, message.as_str());
            },
            CompilerErrorKind::CodeGeneratorError(message) => {
                push_text(&mut s, "Code Generator Error: ");
                push_text(&mut s, message.as_str());
            },
            CompilerErrorKind::InternalError(message) => {
                push_text(&mut s, "Internal Error: ");
                push_text(&mut s, message.as_str());
            },
        }
        s
    }
}

} // verus!
