//! The scanner: one token per call, read from the source text one character
//! at a time, with the line and the column kept up to date.

use vstd::prelude::*;
use crate::common::errors::error::{CompilerErrorKind, ErrorView};
use crate::scanner::number_parser::{
    integer_value,
    invalid_number_message,
    is_number_char,
    NumberParser,
};
use crate::scanner::tokens::{bits_of, Token, TokenType, TokenView};
use crate::source_code::SourceCode;
use crate::utils::text::push_text;
use crate::utils::trie::{
    is_ascii_alphabetic,
    is_ascii_digit,
    is_digit,
    is_letter,
    is_word_char,
    keywords,
    kind_of,
    to_chars,
    KeywordTrie,
};

verus! {

/// A place in a source text: how many characters were read, the line (from 1)
/// and the column (characters read on this line).
pub struct Cursor {
    pub pos: nat,
    pub line: nat,
    pub col: nat,
}

impl Cursor {
    /// The cursor at the start of a text.
    pub open spec fn start() -> Cursor {
        Cursor { pos: 0, line: 1, col: 0 }
    }

    /// The cursor after `n` more characters, none of them a newline.
    pub open spec fn along(self, n: nat) -> Cursor {
        Cursor { pos: self.pos + n, line: self.line, col: self.col + n }
    }
}

/// How many newlines stand among the first `to` characters of the text.
pub open spec fn newlines_before(src: Seq<char>, to: nat) -> nat
    decreases to,
{
    if to == 0 || to > src.len() {
        0
    } else if src[to - 1] == '\n' {
        newlines_before(src, (to - 1) as nat) + 1
    } else {
        newlines_before(src, (to - 1) as nat)
    }
}

/// Where the line starts that holds the place `at`: behind the last newline
/// before `at`, or at the start of the text.
pub open spec fn line_start(src: Seq<char>, at: nat) -> nat
    decreases at,
{
    if at == 0 || at > src.len() {
        0
    } else if src[at - 1] == '\n' {
        at
    } else {
        line_start(src, (at - 1) as nat)
    }
}

/// There are no more newlines before a place than characters, and a line
/// starts at or before each of its places.
pub proof fn lemma_position_bounds(src: Seq<char>, at: nat)
    ensures
        newlines_before(src, at) <= at,
        line_start(src, at) <= at,
    decreases at,
{
    if at > 0 {
        lemma_position_bounds(src, (at - 1) as nat);
    }
}

impl Cursor {
    /// The cursor tells its place in the text: it is inside the text or at
    /// its end, its line is one more than the number of newlines before it,
    /// and, inside the text, its column is the number of characters since
    /// the start of the line. At the end of the text the column also counts
    /// the reads that met the end.
    pub open spec fn tracks(self, src: Seq<char>) -> bool {
        &&& self.pos <= src.len()
        &&& self.line == 1 + newlines_before(src, self.pos)
        &&& self.col >= self.pos - line_start(src, self.pos)
        &&& self.pos < src.len() ==> self.col == self.pos - line_start(src, self.pos)
    }
}

/// The cursor after the character at `cur` was read: a newline starts a new
/// line at column 0.
pub open spec fn step(src: Seq<char>, cur: Cursor) -> Cursor
    recommends
        cur.pos < src.len(),
{
    if src[cur.pos as int] == '\n' {
        Cursor { pos: cur.pos + 1, line: cur.line + 1, col: 0 }
    } else {
        cur.along(1)
    }
}

/// The cursor after a read at the end of the text: the column still counts
/// the read, as far as it can count.
pub open spec fn end_read(cur: Cursor) -> Cursor {
    Cursor {
        col: if cur.col < usize::MAX {
            cur.col + 1
        } else {
            cur.col
        },
        ..cur
    }
}

/// White space: the characters with the Unicode property `White_Space`.
pub open spec fn is_whitespace(c: char) -> bool {
    ('\u{9}' <= c && c <= '\u{d}') || c == ' ' || c == '\u{85}' || c == '\u{a0}' || c
        == '\u{1680}' || ('\u{2000}' <= c && c <= '\u{200a}') || c == '\u{2028}' || c
        == '\u{2029}' || c == '\u{202f}' || c == '\u{205f}' || c == '\u{3000}'
}

/// A character that can start an identifier or a keyword.
pub open spec fn is_word_start(c: char) -> bool {
    is_letter(c) || c == '_'
}

/// The end of the run of word characters that starts at `from`: the first
/// index from there on that holds another character, or the length of the text.
pub open spec fn word_end(src: Seq<char>, from: nat) -> nat
    decreases src.len() - from,
{
    if from < src.len() && is_word_char(src[from as int]) {
        word_end(src, from + 1)
    } else {
        from
    }
}

/// The end of the run of number characters that starts at `from`: the first
/// index from there on that holds another character, or the length of the text.
pub open spec fn number_end(src: Seq<char>, from: nat) -> nat
    decreases src.len() - from,
{
    if from < src.len() && is_number_char(src[from as int]) {
        number_end(src, from + 1)
    } else {
        from
    }
}

/// The cursor after a line comment that is open at `cur`: behind its newline,
/// or at the end of the text.
pub open spec fn skip_line_comment(src: Seq<char>, cur: Cursor) -> Cursor
    decreases src.len() - cur.pos,
{
    if cur.pos >= src.len() {
        cur
    } else if src[cur.pos as int] == '\n' {
        step(src, cur)
    } else {
        skip_line_comment(src, step(src, cur))
    }
}

/// The cursor after a block comment that is open at `cur`: behind its closing
/// `*/`, or at the end of the text.
pub open spec fn skip_block_comment(src: Seq<char>, cur: Cursor) -> Cursor
    decreases src.len() - cur.pos,
{
    if cur.pos >= src.len() {
        cur
    } else if src[cur.pos as int] == '*' && cur.pos + 1 < src.len() && src[cur.pos + 1 as int] == '/' {
        step(src, step(src, cur))
    } else {
        skip_block_comment(src, step(src, cur))
    }
}

/// Where the collection of a literal stops that is open at `i`: at a newline,
/// at the closing quote, or at the end of the text. A backslash toggles
/// `escaped`; a quote met while `escaped` holds is text and clears it.
pub open spec fn literal_stop(src: Seq<char>, i: nat, quote: char, escaped: bool) -> nat
    decreases src.len() - i,
{
    if i >= src.len() {
        src.len()
    } else if src[i as int] == '\n' {
        i
    } else if src[i as int] == '\\' {
        literal_stop(src, i + 1, quote, !escaped)
    } else if src[i as int] == quote {
        if escaped {
            literal_stop(src, i + 1, quote, false)
        } else {
            i
        }
    } else {
        literal_stop(src, i + 1, quote, escaped)
    }
}

/// The collection of a literal stops at or behind the place where it is
/// open, and inside the text or at its end.
pub proof fn lemma_literal_stop_bounds(src: Seq<char>, i: nat, quote: char, escaped: bool)
    requires
        i <= src.len(),
    ensures
        i <= literal_stop(src, i, quote, escaped) <= src.len(),
    decreases src.len() - i,
{
    if i < src.len() && src[i as int] != '\n' {
        if src[i as int] == '\\' {
            lemma_literal_stop_bounds(src, i + 1, quote, !escaped);
        } else if src[i as int] == quote {
            if escaped {
                lemma_literal_stop_bounds(src, i + 1, quote, false);
            }
        } else {
            lemma_literal_stop_bounds(src, i + 1, quote, escaped);
        }
    }
}

/// The operator that the two characters write together.
pub open spec fn two_char_operator(c: char, d: char) -> Option<TokenType> {
    if d == '=' {
        if c == '+' {
            Some(TokenType::PlusEqual)
        } else if c == '-' {
            Some(TokenType::MinusEqual)
        } else if c == '*' {
            Some(TokenType::StarEqual)
        } else if c == '/' {
            Some(TokenType::SlashEqual)
        } else if c == '&' {
            Some(TokenType::AndEqual)
        } else if c == '|' {
            Some(TokenType::OrEqual)
        } else if c == '^' {
            Some(TokenType::CapEqual)
        } else if c == '~' {
            Some(TokenType::WaveEqual)
        } else if c == '=' {
            Some(TokenType::EqualEqual)
        } else if c == '!' {
            Some(TokenType::NotEqual)
        } else if c == '>' {
            Some(TokenType::GreaterEqual)
        } else if c == '<' {
            Some(TokenType::LessEqual)
        } else {
            None
        }
    } else if c == '>' && d == '>' {
        Some(TokenType::RightArrow)
    } else if c == '<' && d == '<' {
        Some(TokenType::LeftArrow)
    } else {
        None
    }
}

/// The punctuation or operator that the character writes alone.
pub open spec fn one_char_operator(c: char) -> Option<TokenType> {
    if c == '#' {
        Some(TokenType::Hash)
    } else if c == '(' {
        Some(TokenType::LeftParen)
    } else if c == ')' {
        Some(TokenType::RightParen)
    } else if c == '{' {
        Some(TokenType::LeftBrace)
    } else if c == '}' {
        Some(TokenType::RightBrace)
    } else if c == ',' {
        Some(TokenType::Comma)
    } else if c == ';' {
        Some(TokenType::Semicolon)
    } else if c == '+' {
        Some(TokenType::Plus)
    } else if c == '-' {
        Some(TokenType::Minus)
    } else if c == '*' {
        Some(TokenType::Star)
    } else if c == '/' {
        Some(TokenType::Slash)
    } else if c == '&' {
        Some(TokenType::And)
    } else if c == '|' {
        Some(TokenType::Or)
    } else if c == '^' {
        Some(TokenType::Cap)
    } else if c == '~' {
        Some(TokenType::Wave)
    } else if c == '=' {
        Some(TokenType::Equal)
    } else if c == '!' {
        Some(TokenType::Not)
    } else if c == '>' {
        Some(TokenType::Greater)
    } else if c == '<' {
        Some(TokenType::Less)
    } else {
        None
    }
}

/// The message for a newline inside a literal.
pub open spec fn newline_in_literal_message() -> Seq<char> {
    "Cannot have '\n' between quotes."@
}

/// The message for a `*/` outside a comment.
pub open spec fn stray_comment_end_message() -> Seq<char> {
    "unrecognized end of comment '*/'"@
}

/// The message for a character that starts no token.
pub open spec fn unrecognized_character_message(c: char) -> Seq<char> {
    "unrecognized character: '"@.push(c) + "'"@
}

/// One scan: where the cursor is afterwards, and the token or the error.
pub struct Scanned {
    pub cursor: Cursor,
    pub result: Result<TokenView, ErrorView>,
}

/// The scanning error at `cur`.
pub open spec fn scan_error(cur: Cursor, message: Seq<char>) -> Result<TokenView, ErrorView> {
    Err(ErrorView::ScannerError(cur.line, cur.col, message))
}

/// The word that starts at `cur`: as many word characters as follow, taken as
/// a keyword if `words` holds them and as an identifier otherwise.
pub open spec fn scan_word(src: Seq<char>, cur: Cursor) -> Scanned {
    let end = word_end(src, cur.pos + 1);
    let text = src.subrange(cur.pos as int, end as int);
    Scanned {
        cursor: cur.along((end - cur.pos) as nat),
        result: Ok(
            match kind_of(keywords(), text) {
                Some(kind) => TokenView::Single(kind),
                None => TokenView::Identifier(text),
            },
        ),
    }
}

/// The number that starts at `cur`: as many number characters as follow,
/// which must write a base-10 integer.
pub open spec fn scan_number(src: Seq<char>, cur: Cursor) -> Scanned {
    let end = number_end(src, cur.pos + 1);
    let text = src.subrange(cur.pos as int, end as int);
    let after = cur.along((end - cur.pos) as nat);
    Scanned {
        cursor: after,
        result: match integer_value(text) {
            Some(value) => Ok(TokenView::Number(TokenType::Integer, bits_of(value))),
            None => scan_error(after, invalid_number_message()),
        },
    }
}

/// The kind of the literal that `quote` opens.
pub open spec fn literal_kind(quote: char) -> TokenType {
    if quote == '\'' {
        TokenType::Char
    } else {
        TokenType::String
    }
}

/// The literal whose opening quote stands at `cur`: the raw text up to the
/// closing quote or the end of the text; a newline before that is an error.
pub open spec fn scan_literal(src: Seq<char>, cur: Cursor) -> Scanned {
    let quote = src[cur.pos as int];
    let stop = literal_stop(src, cur.pos + 1, quote, false);
    let text = src.subrange(cur.pos + 1 as int, stop as int);
    let at_stop = cur.along((stop - cur.pos) as nat);
    if stop < src.len() && src[stop as int] == '\n' {
        Scanned { cursor: at_stop, result: scan_error(at_stop, newline_in_literal_message()) }
    } else {
        Scanned {
            cursor: if stop < src.len() {
                at_stop.along(1)
            } else {
                at_stop
            },
            result: Ok(TokenView::Text(literal_kind(quote), text)),
        }
    }
}

/// The character behind the one at `cur`, if there is one.
pub open spec fn second(src: Seq<char>, cur: Cursor) -> Option<char> {
    if cur.pos + 1 < src.len() {
        Some(src[cur.pos + 1 as int])
    } else {
        None
    }
}

/// The punctuation or operator at `cur`, two characters long where the second
/// fits, or the error for a stray `*/` or for a character that starts nothing.
pub open spec fn scan_operator(src: Seq<char>, cur: Cursor) -> Scanned {
    let c = src[cur.pos as int];
    let pair = match second(src, cur) {
        Some(d) => two_char_operator(c, d),
        None => None,
    };
    if c == '*' && second(src, cur) == Some('/') {
        Scanned { cursor: cur.along(2), result: scan_error(cur.along(2), stray_comment_end_message()) }
    } else if pair is Some {
        Scanned { cursor: cur.along(2), result: Ok(TokenView::Single(pair->0)) }
    } else {
        Scanned {
            cursor: cur.along(1),
            result: match one_char_operator(c) {
                Some(kind) => Ok(TokenView::Single(kind)),
                None => scan_error(cur.along(1), unrecognized_character_message(c)),
            },
        }
    }
}

/// The cursor after a comment that is open at `cur` is not before `cur`.
pub proof fn lemma_skip_comment_moves_on(src: Seq<char>, cur: Cursor)
    requires
        cur.pos <= src.len(),
    ensures
        cur.pos <= skip_line_comment(src, cur).pos <= src.len(),
        cur.pos <= skip_block_comment(src, cur).pos <= src.len(),
    decreases src.len() - cur.pos,
{
    if cur.pos < src.len() {
        lemma_skip_comment_moves_on(src, step(src, cur));
    }
}

/// The next token from `cur` on: white space and comments are passed over,
/// then a word, a number, a literal or an operator is read; at the end of the
/// text the token is `Eof`.
#[verifier::opaque]
pub open spec fn scan_token(src: Seq<char>, cur: Cursor) -> Scanned
    decreases src.len() - cur.pos,
{
    if cur.pos >= src.len() {
        Scanned { cursor: end_read(cur), result: Ok(TokenView::Single(TokenType::Eof)) }
    } else {
        let c = src[cur.pos as int];
        if is_whitespace(c) {
            scan_token(src, step(src, cur))
        } else if is_word_start(c) {
            scan_word(src, cur)
        } else if is_digit(c) {
            scan_number(src, cur)
        } else if c == '"' || c == '\'' {
            scan_literal(src, cur)
        } else if c == '/' && second(src, cur) == Some('/') {
            proof {
                lemma_skip_comment_moves_on(src, cur.along(2));
            }
            scan_token(src, skip_line_comment(src, cur.along(2)))
        } else if c == '/' && second(src, cur) == Some('*') {
            proof {
                lemma_skip_comment_moves_on(src, cur.along(2));
            }
            scan_token(src, skip_block_comment(src, cur.along(2)))
        } else {
            scan_operator(src, cur)
        }
    }
}

/// A run of word characters ends at or behind its start, inside the text or
/// at its end; so does a run of number characters.
pub proof fn lemma_run_end_bounds(src: Seq<char>, from: nat)
    requires
        from <= src.len(),
    ensures
        from <= word_end(src, from) <= src.len(),
        from <= number_end(src, from) <= src.len(),
    decreases src.len() - from,
{
    if from < src.len() {
        lemma_run_end_bounds(src, from + 1);
    }
}

/// A scan at the end of the text gives `Eof` and counts the read.
pub proof fn lemma_scan_token_at_end(src: Seq<char>, cur: Cursor)
    requires
        cur.pos >= src.len(),
    ensures
        scan_token(src, cur) == (Scanned {
            cursor: end_read(cur),
            result: Ok(TokenView::Single(TokenType::Eof)),
        }),
{
    reveal_with_fuel(scan_token, 1);
}

/// A scan inside the text ends inside the text and not before its start; a
/// token other than `Eof` took at least one character; and the payload of the
/// token fits its kind.
pub proof fn lemma_scan_token_progress(src: Seq<char>, cur: Cursor)
    requires
        cur.pos <= src.len(),
    ensures
        cur.pos <= scan_token(src, cur).cursor.pos <= src.len(),
        scan_token(src, cur).result matches Ok(token) ==> token.well_kinded() && (token.kind()
            != TokenType::Eof ==> cur.pos < scan_token(src, cur).cursor.pos),
    decreases src.len() - cur.pos,
{
    reveal_with_fuel(scan_token, 1);
    if cur.pos < src.len() {
        let c = src[cur.pos as int];
        if is_whitespace(c) {
            lemma_scan_token_progress(src, step(src, cur));
        } else if is_word_start(c) {
            lemma_run_end_bounds(src, cur.pos + 1);
        } else if is_digit(c) {
            lemma_run_end_bounds(src, cur.pos + 1);
        } else if c == '"' || c == '\'' {
            lemma_literal_stop_bounds(src, cur.pos + 1, c, false);
        } else if c == '/' && second(src, cur) == Some('/') {
            lemma_skip_comment_moves_on(src, cur.along(2));
            lemma_scan_token_progress(src, skip_line_comment(src, cur.along(2)));
        } else if c == '/' && second(src, cur) == Some('*') {
            lemma_skip_comment_moves_on(src, cur.along(2));
            lemma_scan_token_progress(src, skip_block_comment(src, cur.along(2)));
        }
    }
}

/// Whether `c` is white space.
pub fn is_whitespace_char(c: char) -> (b: bool)
    ensures
        b == is_whitespace(c),
{
    (c >= '\u{9}' && c <= '\u{d}') || c == ' ' || c == '\u{85}' || c == '\u{a0}' || c
        == '\u{1680}' || (c >= '\u{2000}' && c <= '\u{200a}') || c == '\u{2028}' || c
        == '\u{2029}' || c == '\u{202f}' || c == '\u{205f}' || c == '\u{3000}'
}

/// The characters of the source with the place of the next one.
struct ScannerPeekable {
    chars: Vec<char>,
    pos: usize,
    line_number: usize,
    col_number: usize,
}

impl ScannerPeekable {
    spec fn cursor(&self) -> Cursor {
        Cursor {
            pos: self.pos as nat,
            line: self.line_number as nat,
            col: self.col_number as nat,
        }
    }

    /// The text is short enough for the counters, and they tell the place
    /// of the cursor in the text.
    spec fn wf(&self) -> bool {
        &&& self.chars.len() < usize::MAX
        &&& self.cursor().tracks(self.chars@)
    }

    /// The character at the cursor, if the text has not ended.
    spec fn ahead(&self) -> Option<char> {
        if self.pos < self.chars.len() {
            Some(self.chars@[self.pos as int])
        } else {
            None
        }
    }

    fn new(chars: Vec<char>) -> (p: Self)
        requires
            chars.len() < usize::MAX,
        ensures
            p.wf(),
            p.chars@ == chars@,
            p.cursor() == Cursor::start(),
    {
        Self { chars, pos: 0, line_number: 1, col_number: 0 }
    }

    /// Reads the character at the cursor.
    fn next(&mut self) -> (r: Option<char>)
        requires
            old(self).wf(),
        ensures
            final(self).wf(),
            final(self).chars@ == old(self).chars@,
            r == old(self).ahead(),
            final(self).cursor() == if r is Some {
                step(old(self).chars@, old(self).cursor())
            } else {
                end_read(old(self).cursor())
            },
    {
        proof {
            lemma_position_bounds(self.chars@, self.pos as nat);
        }
        if self.pos < self.chars.len() {
            let c = self.chars[self.pos];
            self.pos += 1;
            if c == '\n' {
                self.line_number += 1;
                self.col_number = 0;
            } else {
                self.col_number += 1;
            }
            Some(c)
        } else {
            if self.col_number < usize::MAX {
                self.col_number += 1;
            }
            None
        }
    }

    /// Reads the character at the cursor if it is `target`.
    fn c_match(&mut self, target: char) -> (b: bool)
        requires
            old(self).wf(),
        ensures
            final(self).wf(),
            final(self).chars@ == old(self).chars@,
            b == (old(self).ahead() == Some(target)),
            final(self).cursor() == if b {
                step(old(self).chars@, old(self).cursor())
            } else {
                old(self).cursor()
            },
    {
        match self.peek() {
            None => false,
            Some(c) => {
                if c == target {
                    self.next();
                    true
                } else {
                    false
                }
            },
        }
    }

    /// The character at the cursor, which stays.
    fn peek(&self) -> (r: Option<char>)
        requires
            self.wf(),
        ensures
            r == self.ahead(),
    {
        if self.pos < self.chars.len() {
            Some(self.chars[self.pos])
        } else {
            None
        }
    }
}

/// Collects the raw text of a literal whose opening quote `target` was just
/// read, up to the closing quote, which is read too.
fn parse_constant_chars(chars: &mut ScannerPeekable, target: char) -> (r: Result<
    String,
    CompilerErrorKind,
>)
    requires
        old(chars).wf(),
        target == '"' || target == '\'',
    ensures
        final(chars).wf(),
        final(chars).chars@ == old(chars).chars@,
        ({
            let src = old(chars).chars@;
            let start = old(chars).cursor();
            let stop = literal_stop(src, start.pos, target, false);
            let at_stop = start.along((stop - start.pos) as nat);
            if stop < src.len() && src[stop as int] == '\n' {
                &&& final(chars).cursor() == at_stop
                &&& r matches Err(e)
                &&& e@ == ErrorView::ScannerError(
                    at_stop.line,
                    at_stop.col,
                    newline_in_literal_message(),
                )
            } else {
                &&& final(chars).cursor() == if stop < src.len() {
                    at_stop.along(1)
                } else {
                    at_stop
                }
                &&& r matches Ok(text)
                &&& text@ == src.subrange(start.pos as int, stop as int)
            }
        }),
{
    let mut result = String::new();
    let mut have_slash: bool = false;
    let ghost src = chars.chars@;
    let ghost start = chars.cursor();
    let ghost stop = literal_stop(src, start.pos, target, false);
    loop
        invariant
            chars.wf(),
            chars.chars@ == src,
            src == old(chars).chars@,
            start == old(chars).cursor(),
            stop == literal_stop(src, start.pos, target, false),
            target == '"' || target == '\'',
            start.pos <= chars.pos,
            stop == literal_stop(src, chars.pos as nat, target, have_slash),
            chars.cursor() == start.along((chars.pos - start.pos) as nat),
            result@ == src.subrange(start.pos as int, chars.pos as int),
        decreases chars.chars.len() - chars.pos,
    {
        match chars.peek() {
            None => {
                return Ok(result);
            },
            Some(next_char) => {
                if next_char == '\n' {
                    return Err(
                        CompilerErrorKind::ScannerError(
                            chars.line_number,
                            chars.col_number,
                            "Cannot have '\n' between quotes.".to_owned(),
                        ),
                    );
                } else {
                    if next_char == '\\' {
                        have_slash = !have_slash;
                    } else if next_char == target {
                        if !have_slash {
                            chars.next();
                            return Ok(result);
                        }
                        have_slash = false;
                    }
                }
                proof {
                    assert(src.subrange(start.pos as int, chars.pos + 1) =~= src.subrange(
                        start.pos as int,
                        chars.pos as int,
                    ).push(next_char));
                }
                chars.next();
                result.push(next_char);
            },
        }
    }
}

/// A scanner: the source text, the place of the next character in it, and
/// the reserved words.
pub struct Scanner {
    keyword_trie: KeywordTrie,
    number_parser: NumberParser,
    chars: ScannerPeekable,
}

/// What a scanner is: the text and the cursor in it.
pub struct ScannerView {
    pub src: Seq<char>,
    pub cursor: Cursor,
}

impl View for Scanner {
    type V = ScannerView;

    closed spec fn view(&self) -> ScannerView {
        ScannerView { src: self.chars.chars@, cursor: self.chars.cursor() }
    }
}

/// The content of what a scan returned.
pub open spec fn token_result_view(r: Result<Token, CompilerErrorKind>) -> Result<
    TokenView,
    ErrorView,
> {
    match r {
        Ok(token) => Ok(token@),
        Err(e) => Err(e@),
    }
}

impl Scanner {
    /// The scanner holds the reserved words, its cursor is inside the text,
    /// and its counters cannot leave the range of their type.
    pub closed spec fn wf(&self) -> bool {
        &&& self.chars.wf()
        &&& self.keyword_trie@ == keywords()
    }

    /// The cursor of a scanner tells its place in the text: the line is one
    /// more than the number of newlines before the cursor, and the column is
    /// the number of characters read on that line.
    pub proof fn lemma_cursor_tracks(&self)
        requires
            self.wf(),
        ensures
            self@.cursor.tracks(self@.src),
    {
    }

    /// A scanner at the start of the source.
    pub fn new(source_code: &SourceCode) -> (scanner: Self)
        requires
            source_code@.len() < usize::MAX,
        ensures
            scanner.wf(),
            scanner@ == (ScannerView { src: source_code@, cursor: Cursor::start() }),
    {
        Self {
            keyword_trie: KeywordTrie::new(),
            number_parser: NumberParser::new(),
            chars: ScannerPeekable::new(to_chars(source_code.get_source_code().as_str())),
        }
    }

    /// The line and the column of the cursor.
    pub fn get_position(&self) -> (position: (usize, usize))
        ensures
            position.0 == self@.cursor.line,
            position.1 == self@.cursor.col,
    {
        (self.chars.line_number, self.chars.col_number)
    }

    /// Reads the rest of a word whose first character `c` was just read.
    fn word(&mut self, c: char, Ghost(cur): Ghost<Cursor>) -> (token: Token)
        requires
            old(self).wf(),
            cur.pos < old(self)@.src.len(),
            old(self)@.src[cur.pos as int] == c,
            is_word_start(c),
            old(self)@.cursor == cur.along(1),
        ensures
            final(self).wf(),
            final(self)@.src == old(self)@.src,
            final(self)@.cursor == scan_word(old(self)@.src, cur).cursor,
            Ok::<TokenView, ErrorView>(token@) == scan_word(old(self)@.src, cur).result,
    {
        let ghost src = self@.src;
        let mut keyword_checker = self.keyword_trie.into_checker();
        keyword_checker.update(c);
        loop
            invariant
                self.chars.wf(),
                self.keyword_trie@ == keywords(),
                self.chars.chars@ == src,
                src == old(self)@.src,
                keyword_checker.wf(),
                cur.pos < self.chars.pos,
                keyword_checker@.words == keywords(),
                keyword_checker@.fed == src.subrange(cur.pos as int, self.chars.pos as int),
                keyword_checker@.text == keyword_checker@.fed,
                self.chars.cursor() == cur.along((self.chars.pos - cur.pos) as nat),
                word_end(src, cur.pos + 1) == word_end(src, self.chars.pos as nat),
            ensures
                self.chars.pos == word_end(src, cur.pos + 1),
            decreases self.chars.chars.len() - self.chars.pos,
        {
            match self.chars.peek() {
                None => {
                    break ;
                },
                Some(next_char) => {
                    if !keyword_checker.can_consume(&next_char) {
                        break ;
                    }
                    proof {
                        assert(src.subrange(cur.pos as int, self.chars.pos + 1) =~= src.subrange(
                            cur.pos as int,
                            self.chars.pos as int,
                        ).push(next_char));
                    }
                    self.chars.next();
                    keyword_checker.update(next_char);
                },
            }
        }
        let text = match keyword_checker.get_str() {
            Ok(text) => text,
            Err(_) => String::new(),
        };
        match keyword_checker.check() {
            Some(keyword) => Token::single_token(keyword),
            None => Token::Identifier(text),
        }
    }

    /// Reads the rest of a number whose first digit `c` was just read.
    fn number(&mut self, c: char, Ghost(cur): Ghost<Cursor>) -> (r: Result<
        Token,
        CompilerErrorKind,
    >)
        requires
            old(self).wf(),
            cur.pos < old(self)@.src.len(),
            old(self)@.src[cur.pos as int] == c,
            is_digit(c),
            old(self)@.cursor == cur.along(1),
        ensures
            final(self).wf(),
            final(self)@.src == old(self)@.src,
            final(self)@.cursor == scan_number(old(self)@.src, cur).cursor,
            token_result_view(r) == scan_number(old(self)@.src, cur).result,
    {
        let ghost src = self@.src;
        let mut number_checker = self.number_parser.into_checker();
        number_checker.update(c);
        loop
            invariant
                self.chars.wf(),
                self.keyword_trie@ == keywords(),
                self.chars.chars@ == src,
                src == old(self)@.src,
                cur.pos < self.chars.pos,
                number_checker@ == src.subrange(cur.pos as int, self.chars.pos as int),
                self.chars.cursor() == cur.along((self.chars.pos - cur.pos) as nat),
                number_end(src, cur.pos + 1) == number_end(src, self.chars.pos as nat),
            ensures
                self.chars.pos == number_end(src, cur.pos + 1),
            decreases self.chars.chars.len() - self.chars.pos,
        {
            match self.chars.peek() {
                None => {
                    break ;
                },
                Some(next_char) => {
                    if !number_checker.can_consume(&next_char) {
                        break ;
                    }
                    proof {
                        assert(src.subrange(cur.pos as int, self.chars.pos + 1) =~= src.subrange(
                            cur.pos as int,
                            self.chars.pos as int,
                        ).push(next_char));
                    }
                    self.chars.next();
                    number_checker.update(next_char);
                },
            }
        }
        match number_checker.check() {
            Ok(value) => Ok(Token::number_token(value)),
            Err(_) => Err(
                CompilerErrorKind::ScannerError(
                    self.chars.line_number,
                    self.chars.col_number,
                    "Invalid number literal.".to_owned(),
                ),
            ),
        }
    }

    /// Reads the punctuation or operator whose first character `c`, which is
    /// no slash, was just read.
    fn operator(&mut self, c: char, Ghost(cur): Ghost<Cursor>) -> (r: Result<
        Token,
        CompilerErrorKind,
    >)
        requires
            old(self).wf(),
            cur.pos < old(self)@.src.len(),
            old(self)@.src[cur.pos as int] == c,
            c != '/',
            old(self)@.cursor == cur.along(1),
        ensures
            final(self).wf(),
            final(self)@.src == old(self)@.src,
            final(self)@.cursor == scan_operator(old(self)@.src, cur).cursor,
            token_result_view(r) == scan_operator(old(self)@.src, cur).result,
    {
        if c == '#' {
            Ok(Token::single_token(TokenType::Hash))
        } else if c == '(' {
            Ok(Token::single_token(TokenType::LeftParen))
        } else if c == ')' {
            Ok(Token::single_token(TokenType::RightParen))
        } else if c == '{' {
            Ok(Token::single_token(TokenType::LeftBrace))
        } else if c == '}' {
            Ok(Token::single_token(TokenType::RightBrace))
        } else if c == ',' {
            Ok(Token::single_token(TokenType::Comma))
        } else if c == ';' {
            Ok(Token::single_token(TokenType::Semicolon))
        } else if c == '+' {
            if self.chars.c_match('=') {
                Ok(Token::single_token(TokenType::PlusEqual))
            } else {
                Ok(Token::single_token(TokenType::Plus))
            }
        } else if c == '-' {
            if self.chars.c_match('=') {
                Ok(Token::single_token(TokenType::MinusEqual))
            } else {
                Ok(Token::single_token(TokenType::Minus))
            }
        } else if c == '*' {
            if self.chars.c_match('/') {
                Err(
                    CompilerErrorKind::ScannerError(
                        self.chars.line_number,
                        self.chars.col_number,
                        "unrecognized end of comment '*/'".to_owned(),
                    ),
                )
            } else if self.chars.c_match('=') {
                Ok(Token::single_token(TokenType::StarEqual))
            } else {
                Ok(Token::single_token(TokenType::Star))
            }
        } else if c == '&' {
            if self.chars.c_match('=') {
                Ok(Token::single_token(TokenType::AndEqual))
            } else {
                Ok(Token::single_token(TokenType::And))
            }
        } else if c == '|' {
            if self.chars.c_match('=') {
                Ok(Token::single_token(TokenType::OrEqual))
            } else {
                Ok(Token::single_token(TokenType::Or))
            }
        } else if c == '^' {
            if self.chars.c_match('=') {
                Ok(Token::single_token(TokenType::CapEqual))
            } else {
                Ok(Token::single_token(TokenType::Cap))
            }
        } else if c == '~' {
            if self.chars.c_match('=') {
                Ok(Token::single_token(TokenType::WaveEqual))
            } else {
                Ok(Token::single_token(TokenType::Wave))
            }
        } else if c == '=' {
            if self.chars.c_match('=') {
                Ok(Token::single_token(TokenType::EqualEqual))
            } else {
                Ok(Token::single_token(TokenType::Equal))
            }
        } else if c == '!' {
            if self.chars.c_match('=') {
                Ok(Token::single_token(TokenType::NotEqual))
            } else {
                Ok(Token::single_token(TokenType::Not))
            }
        } else if c == '>' {
            if self.chars.c_match('=') {
                Ok(Token::single_token(TokenType::GreaterEqual))
            } else if self.chars.c_match('>') {
                Ok(Token::single_token(TokenType::RightArrow))
            } else {
                Ok(Token::single_token(TokenType::Greater))
            }
        } else if c == '<' {
            if self.chars.c_match('=') {
                Ok(Token::single_token(TokenType::LessEqual))
            } else if self.chars.c_match('<') {
                Ok(Token::single_token(TokenType::LeftArrow))
            } else {
                Ok(Token::single_token(TokenType::Less))
            }
        } else {
            let mut message = "unrecognized character: '".to_owned();
            message.push(c);
            push_text(&mut message, "'");
            Err(
                CompilerErrorKind::ScannerError(
                    self.chars.line_number,
                    self.chars.col_number,
                    message,
                ),
            )
        }
    }

    /// Reads the next token: exactly one per call, `Eof` at the end of the
    /// text, or the first scanning error.
    pub fn scan(&mut self) -> (r: Result<Token, CompilerErrorKind>)
        requires
            old(self).wf(),
        ensures
            final(self).wf(),
            final(self)@.src == old(self)@.src,
            final(self)@.cursor == scan_token(old(self)@.src, old(self)@.cursor).cursor,
            token_result_view(r) == scan_token(old(self)@.src, old(self)@.cursor).result,
    {
        let ghost src = self@.src;
        let ghost goal = scan_token(src, self@.cursor);
        proof {
            reveal_with_fuel(scan_token, 1);
        }
        let mut block_comment: bool = false;
        let mut line_comment: bool = false;
        loop
            invariant
                self.wf(),
                self@.src == src,
                src == old(self)@.src,
                goal == scan_token(src, old(self)@.cursor),
                !(block_comment && line_comment),
                goal == scan_token(
                    src,
                    if line_comment {
                        skip_line_comment(src, self@.cursor)
                    } else if block_comment {
                        skip_block_comment(src, self@.cursor)
                    } else {
                        self@.cursor
                    },
                ),
            decreases src.len() - self@.cursor.pos,
        {
            let ghost cur = self@.cursor;
            proof {
                reveal_with_fuel(scan_token, 1);
            }
            match self.chars.next() {
                Some(c) => {
                    if line_comment {
                        if c == '\n' {
                            line_comment = false;
                        }
                    } else if block_comment {
                        if c == '*' && self.chars.c_match('/') {
                            block_comment = false;
                        }
                    } else if is_whitespace_char(c) {
                        // white space is passed over
                    } else if is_ascii_alphabetic(c) || c == '_' {
                        let token = self.word(c, Ghost(cur));
                        return Ok(token);
                    } else if is_ascii_digit(c) {
                        return self.number(c, Ghost(cur));
                    } else if c == '"' || c == '\'' {
                        proof {
                            lemma_literal_stop_bounds(src, cur.pos + 1, c, false);
                        }
                        match parse_constant_chars(&mut self.chars, c) {
                            Ok(text) => {
                                if c == '\'' {
                                    return Ok(Token::text_token(TokenType::Char, text.as_str()));
                                } else {
                                    return Ok(
                                        Token::text_token(TokenType::String, text.as_str()),
                                    );
                                }
                            },
                            Err(e) => {
                                return Err(e);
                            },
                        }
                    } else if c == '/' {
                        if self.chars.c_match('=') {
                            return Ok(Token::single_token(TokenType::SlashEqual));
                        } else if self.chars.c_match('/') {
                            line_comment = true;
                        } else if self.chars.c_match('*') {
                            block_comment = true;
                        } else {
                            return Ok(Token::single_token(TokenType::Slash));
                        }
                    } else {
                        return self.operator(c, Ghost(cur));
                    }
                },
                None => {
                    return Ok(Token::single_token(TokenType::Eof));
                },
            }
        }
    }
}

} // verus!
