//! Reading a number literal: the characters are collected loosely and then
//! validated as a plain decimal integer.

use vstd::prelude::*;
use crate::common::errors::error::{CompilerErrorKind, ErrorView};
use crate::utils::trie::{is_ascii_alphanumeric, is_digit, is_letter};

verus! {

/// Whether every character of `s` is an ASCII decimal digit.
pub open spec fn all_digits(s: Seq<char>) -> bool {
    forall|i: int| 0 <= i < s.len() ==> is_digit(#[trigger] s[i])
}

/// The number that the decimal digits of `s` write (0 for no digits).
pub open spec fn digits_value(s: Seq<char>) -> nat
    decreases s.len(),
{
    if s.len() == 0 {
        0
    } else {
        (digits_value(s.drop_last()) * 10 + (s.last() as int - '0' as int)) as nat
    }
}

/// The number that `s` writes as a base-10 integer of 64 bits: an optional
/// sign, then at least one digit and nothing else, with a value in range.
pub open spec fn integer_value(s: Seq<char>) -> Option<i64> {
    if s.len() == 0 {
        None
    } else {
        let signed = s[0] == '-' || s[0] == '+';
        let body = if signed {
            s.drop_first()
        } else {
            s
        };
        let value = if s[0] == '-' {
            -(digits_value(body) as int)
        } else {
            digits_value(body) as int
        };
        if body.len() > 0 && all_digits(body) && i64::MIN <= value <= i64::MAX {
            Some(value as i64)
        } else {
            None
        }
    }
}

/// A character that a number literal admits after its first digit: an ASCII
/// letter or digit, an underscore or a dot.
pub open spec fn is_number_char(c: char) -> bool {
    is_letter(c) || is_digit(c) || c == '_' || c == '.'
}

/// The message of the error for a literal that is no base-10 integer.
pub open spec fn invalid_number_message() -> Seq<char> {
    "Invalid number literal."@
}

/// What `check` answers for the collected text.
pub open spec fn number_verdict(text: Seq<char>) -> Result<i64, ErrorView> {
    match integer_value(text) {
        Some(value) => Ok(value),
        None => Err(ErrorView::ScannerError(0, 0, invalid_number_message())),
    }
}

/// The number written by the first digits of a numeral is at most the number
/// written by all of them.
proof fn lemma_digits_value_grows(s: Seq<char>, k: int)
    requires
        0 <= k <= s.len(),
        all_digits(s),
    ensures
        digits_value(s.take(k)) <= digits_value(s),
    decreases s.len() - k,
{
    if k == s.len() {
        assert(s.take(k) =~= s);
    } else {
        lemma_digits_value_grows(s.drop_last(), k);
        assert(s.drop_last().take(k) =~= s.take(k));
    }
}

/// The number that the characters of `body` write, if all are digits and the
/// number is at most `limit`.
fn parse_digits(body: &Vec<char>, from: usize, limit: u64) -> (r: Option<u64>)
    requires
        from <= body.len(),
    ensures
        r == if all_digits(body@.skip(from as int)) && digits_value(body@.skip(from as int))
            <= limit {
            Some(digits_value(body@.skip(from as int)) as u64)
        } else {
            None
        },
{
    let ghost digits = body@.skip(from as int);
    let mut value: u64 = 0;
    let mut i: usize = from;
    while i < body.len()
        invariant
            from <= i <= body.len(),
            digits == body@.skip(from as int),
            all_digits(digits.take(i - from)),
            value == digits_value(digits.take(i - from)),
            value <= limit,
        decreases body.len() - i,
    {
        let c = body[i];
        let ghost prefix = digits.take(i - from + 1);
        proof {
            assert(prefix.drop_last() =~= digits.take(i - from));
            assert(prefix.last() == c);
        }
        if !(c >= '0' && c <= '9') {
            return None;
        }
        let d: u64 = (c as u32 - '0' as u32) as u64;
        if d > limit || value > (limit - d) / 10 {
            proof {
                if all_digits(digits) {
                    lemma_digits_value_grows(digits, i - from + 1);
                }
            }
            return None;
        }
        value = value * 10 + d;
        i += 1;
        proof {
            assert forall|j: int| 0 <= j < prefix.len() implies is_digit(#[trigger] prefix[j]) by {}
        }
    }
    assert(digits.take(i - from) =~= digits);
    Some(value)
}

/// Makes the checkers that read number literals.
pub struct NumberParser {}

impl NumberParser {
    pub fn new() -> NumberParser {
        Self {  }
    }

    /// A checker with an empty buffer.
    pub fn into_checker(&self) -> (checker: NumberChecker)
        ensures
            checker@ == Seq::<char>::empty(),
    {
        NumberChecker::new()
    }
}

/// Collects the characters of one number literal.
pub struct NumberChecker {
    cache: Vec<char>,
}

impl View for NumberChecker {
    type V = Seq<char>;

    /// The characters collected so far.
    closed spec fn view(&self) -> Seq<char> {
        self.cache@
    }
}

impl NumberChecker {
    /// A checker with an empty buffer.
    pub fn new() -> (checker: NumberChecker)
        ensures
            checker@ == Seq::<char>::empty(),
    {
        Self { cache: Vec::new() }
    }

    /// Records `c` in the buffer.
    pub fn update(&mut self, c: char)
        ensures
            final(self)@ == old(self)@.push(c),
    {
        self.cache.push(c);
    }

    /// The value of the collected text as a base-10 integer, or an error
    /// without a position if it is none; the buffer is emptied.
    pub fn check(&mut self) -> (r: Result<i64, CompilerErrorKind>)
        ensures
            final(self)@ == Seq::<char>::empty(),
            match r {
                Ok(value) => number_verdict(old(self)@) == Ok::<i64, ErrorView>(value),
                Err(e) => number_verdict(old(self)@) == Err::<i64, ErrorView>(e@),
            },
    {
        let parsed = parse_integer(&self.cache);
        self.cache = Vec::new();
        match parsed {
            Some(value) => Ok(value),
            None => Err(
                CompilerErrorKind::ScannerError(0, 0, "Invalid number literal.".to_owned()),
            ),
        }
    }

    /// Whether `c` can continue a number literal.
    pub fn can_consume(&self, c: &char) -> (b: bool)
        ensures
            b == is_number_char(*c),
    {
        is_ascii_alphanumeric(*c) || *c == '_' || *c == '.'
    }
}

/// The value of `text` as a base-10 integer of 64 bits, if it is one.
pub fn parse_integer(text: &Vec<char>) -> (r: Option<i64>)
    ensures
        r == integer_value(text@),
{
    if text.len() == 0 {
        return None;
    }
    let first = text[0];
    let signed = first == '-' || first == '+';
    let from: usize = if signed {
        1
    } else {
        0
    };
    proof {
        if !signed {
            assert(text@.skip(0) =~= text@);
        }
    }
    if from == text.len() {
        return None;
    }
    if first == '-' {
        match parse_digits(text, from, 0x8000_0000_0000_0000u64) {
            Some(magnitude) => {
                if magnitude == 0x8000_0000_0000_0000u64 {
                    Some(i64::MIN)
                } else {
                    Some(-(magnitude as i64))
                }
            },
            None => None,
        }
    } else {
        match parse_digits(text, from, 0x7fff_ffff_ffff_ffffu64) {
            Some(magnitude) => Some(magnitude as i64),
            None => None,
        }
    }
}

} // verus!
