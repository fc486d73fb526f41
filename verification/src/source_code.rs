//! The text of a program.

use vstd::prelude::*;
use crate::common::errors::error::{CompilerErrorKind, ErrorView};
use crate::parser::parser::{Parsed, Parser, ParserView};
use crate::scanner::scanner::{Cursor, Scanner, ScannerView};

verus! {

/// The source text that the scanner reads.
pub struct SourceCode {
    code: String,
}

impl View for SourceCode {
    type V = Seq<char>;

    /// The characters of the text.
    closed spec fn view(&self) -> Seq<char> {
        self.code@
    }
}

impl SourceCode {
    pub fn new(code: String) -> (source: SourceCode)
        ensures
            source@ == code@,
    {
        Self { code }
    }

    pub fn get_source_code(&self) -> (code: &String)
        ensures
            code@ == self@,
    {
        &self.code
    }

    /// A scanner at the start of this text.
    pub fn into_scanner(&self) -> (scanner: Scanner)
        requires
            self@.len() < usize::MAX,
        ensures
            scanner.wf(),
            scanner@ == (ScannerView { src: self@, cursor: Cursor::start() }),
    {
        Scanner::new(self)
    }

    /// A parser over `scanner` that has read its first token, or the error of
    /// that first scan.
    pub fn into_parser<'a>(&'a self, scanner: &'a mut Scanner) -> (r: Result<
        Parser<'a>,
        CompilerErrorKind,
    >)
        requires
            old(scanner).wf(),
        ensures
            match r {
                Ok(parser) => parser.wf() && ParserView::over(old(scanner)@).advance() == (Parsed {
                    state: parser@,
                    result: Ok::<(), ErrorView>(()),
                }),
                Err(e) => ParserView::over(old(scanner)@).advance().result == Err::<(), ErrorView>(
                    e@,
                ),
            },
    {
        Parser::new(scanner)
    }
}

} // verus!
