//! The sink of the code generator: lines of text, kept in memory.

use vstd::prelude::*;
use crate::utils::text::push_text;

verus! {

/// A line-oriented sink that keeps what was written to it.
pub struct TextOutput {
    lines: Vec<String>,
}

impl View for TextOutput {
    type V = Seq<Seq<char>>;

    /// The lines written so far, in order, without their newlines.
    closed spec fn view(&self) -> Seq<Seq<char>> {
        Seq::new(self.lines@.len(), |i: int| self.lines@[i]@)
    }
}

/// The text of a run of lines: each line with a newline behind it.
pub open spec fn text_of(lines: Seq<Seq<char>>) -> Seq<char>
    decreases lines.len(),
{
    if lines.len() == 0 {
        Seq::empty()
    } else {
        text_of(lines.drop_last()) + lines.last() + seq!['\n']
    }
}

impl TextOutput {
    /// A sink to which nothing was written.
    pub fn new() -> (output: Self)
        ensures
            output@ == Seq::<Seq<char>>::empty(),
    {
        let output = Self { lines: Vec::new() };
        output
    }

    /// Writes `line` as the next line.
    pub fn writeln(&mut self, line: &str)
        ensures
            final(self)@ == old(self)@.push(line@),
    {
        self.lines.push(line.to_owned());
    }

    /// The lines written so far.
    pub fn lines(&self) -> (lines: &Vec<String>)
        ensures
            lines@.len() == self@.len(),
            forall|i: int| 0 <= i < lines@.len() ==> (#[trigger] lines@[i])@ == self@[i],
    {
        &self.lines
    }

    /// The whole text written so far: each line with its newline.
    pub fn contents(&self) -> (text: String)
        ensures
            text@ == text_of(self@),
    {
        let mut text = String::new();
        let mut i: usize = 0;
        while i < self.lines.len()
            invariant
                i <= self.lines.len(),
                text@ == text_of(self@.take(i as int)),
            decreases self.lines.len() - i,
        {
            proof {
                assert(self@.take(i + 1).drop_last() =~= self@.take(i as int));
            }
            push_text(&mut text, self.lines[i].as_str());
            push_text(&mut text, "\n");
            proof {
                reveal_strlit("\n");
            }
            i += 1;
        }
        assert(self@.take(self.lines.len() as int) =~= self@);
        text
    }
}

} // verus!
