//! How the tokens of expressions are spelled, and the proof that the scanner
//! reads a spelled token back.

use vstd::prelude::*;
use crate::scanner::number_parser::{all_digits, digits_value, is_number_char};
use crate::scanner::scanner::{
    number_end,
    scan_token,
    word_end,
    Cursor,
    Scanned,
};
use crate::scanner::tokens::{TokenType, TokenView};
use crate::utils::text::decimal;
use crate::utils::trie::{is_digit, is_word_char};

verus! {

/// The punctuation and the operators of expressions, statements and blocks.
pub open spec fn is_sign(kind: TokenType) -> bool {
    kind == TokenType::Plus || kind == TokenType::Minus || kind == TokenType::Star || kind
        == TokenType::Slash || kind == TokenType::LeftParen || kind == TokenType::RightParen
        || kind == TokenType::LeftBrace || kind == TokenType::RightBrace || kind
        == TokenType::Semicolon
}

/// The character that writes a sign.
pub open spec fn sign_char(kind: TokenType) -> char {
    match kind {
        TokenType::Plus => '+',
        TokenType::Minus => '-',
        TokenType::Star => '*',
        TokenType::Slash => '/',
        TokenType::LeftParen => '(',
        TokenType::RightParen => ')',
        TokenType::LeftBrace => '{',
        TokenType::RightBrace => '}',
        _ => ';',
    }
}

/// The tokens that have a spelling here: the signs, the keyword `print`, and
/// the integers that fit a signed number of 64 bits.
pub open spec fn is_spelled(token: TokenView) -> bool {
    match token {
        TokenView::Single(kind) => is_sign(kind) || kind == TokenType::Print,
        TokenView::Number(kind, bits) => kind == TokenType::Integer && bits <= i64::MAX,
        _ => false,
    }
}

/// The text that writes a token.
pub open spec fn spelling(token: TokenView) -> Seq<char> {
    match token {
        TokenView::Single(kind) => if kind == TokenType::Print {
            "print"@
        } else {
            seq![sign_char(kind)]
        },
        TokenView::Number(_, bits) => decimal(bits as nat),
        _ => Seq::empty(),
    }
}

/// A decimal numeral is made of digits, at least one, and they write the
/// number.
pub proof fn lemma_decimal_writes(n: nat)
    ensures
        decimal(n).len() > 0,
        all_digits(decimal(n)),
        digits_value(decimal(n)) == n,
    decreases n,
{
    if n < 10 {
        assert(digits_value(decimal(n)) == n) by {
            reveal_with_fuel(digits_value, 2);
        }
    } else {
        lemma_decimal_writes(n / 10);
        let s = decimal(n);
        assert(s.drop_last() =~= decimal(n / 10));
        assert forall|i: int| 0 <= i < s.len() implies is_digit(#[trigger] s[i]) by {}
    }
}

/// A run of number characters that is followed by another character, or by
/// the end of the text, ends there.
pub proof fn lemma_number_end(src: Seq<char>, from: nat, end: nat)
    requires
        from <= end <= src.len(),
        forall|i: int| from <= i < end ==> is_number_char(#[trigger] src[i]),
        end == src.len() || !is_number_char(src[end as int]),
    ensures
        number_end(src, from) == end,
    decreases end - from,
{
    if from < end {
        lemma_number_end(src, from + 1, end);
    }
}

/// A run of word characters that is followed by another character, or by the
/// end of the text, ends there.
pub proof fn lemma_word_end(src: Seq<char>, from: nat, end: nat)
    requires
        from <= end <= src.len(),
        forall|i: int| from <= i < end ==> is_word_char(#[trigger] src[i]),
        end == src.len() || !is_word_char(src[end as int]),
    ensures
        word_end(src, from) == end,
    decreases end - from,
{
    if from < end {
        lemma_word_end(src, from + 1, end);
    }
}

/// Whether the text holds, from `at` on, a space and the spelling of `token`,
/// and then a space or its end.
pub open spec fn spelled_at(src: Seq<char>, at: nat, token: TokenView) -> bool {
    let end = at + 1 + spelling(token).len();
    &&& end <= src.len()
    &&& src[at as int] == ' '
    &&& src.subrange(at + 1 as int, end as int) == spelling(token)
    &&& end == src.len() || src[end as int] == ' '
}

/// The scanner reads a number back.
proof fn lemma_scan_number(src: Seq<char>, cur: Cursor, bits: u64)
    requires
        bits <= i64::MAX,
        spelled_at(src, cur.pos, TokenView::Number(TokenType::Integer, bits)),
    ensures
        scan_token(src, cur) == (Scanned {
            cursor: cur.along(1 + decimal(bits as nat).len()),
            result: Ok(TokenView::Number(TokenType::Integer, bits)),
        }),
{
    let text = decimal(bits as nat);
    let start = cur.pos + 1;
    let end = start + text.len();
    lemma_decimal_writes(bits as nat);
    assert forall|i: int| start <= i < end implies is_number_char(#[trigger] src[i]) by {
        assert(is_digit(text[i - start]));
    }
    lemma_number_end(src, start + 1, end);
    reveal_with_fuel(scan_token, 2);
}

/// The scanner reads a sign back.
proof fn lemma_scan_sign(src: Seq<char>, cur: Cursor, kind: TokenType)
    requires
        is_sign(kind),
        spelled_at(src, cur.pos, TokenView::Single(kind)),
    ensures
        scan_token(src, cur) == (Scanned {
            cursor: cur.along(2),
            result: Ok(TokenView::Single(kind)),
        }),
{
    reveal_with_fuel(scan_token, 2);
}

/// The scanner reads the keyword `print` back.
proof fn lemma_scan_print(src: Seq<char>, cur: Cursor)
    requires
        spelled_at(src, cur.pos, TokenView::Single(TokenType::Print)),
    ensures
        scan_token(src, cur) == (Scanned {
            cursor: cur.along(6),
            result: Ok(TokenView::Single(TokenType::Print)),
        }),
{
    let text = "print"@;
    reveal_strlit("print");
    let start = cur.pos + 1;
    let end = start + 5;
    assert forall|i: int| start <= i < end implies is_word_char(#[trigger] src[i]) by {
        assert(src[i] == src.subrange(start as int, end as int)[i - start]);
    }
    assert(text[0] == 'p');
    lemma_word_end(src, start + 1, end);
    reveal_with_fuel(scan_token, 2);
}

/// The scanner reads back what was spelled: where a space and the spelling
/// of a token stand at the cursor, and then a space or the end of the text,
/// a scan gives the token and passes the space and the spelling.
pub proof fn lemma_scan_spelled(src: Seq<char>, cur: Cursor, token: TokenView)
    requires
        is_spelled(token),
        spelled_at(src, cur.pos, token),
    ensures
        scan_token(src, cur) == (Scanned {
            cursor: cur.along(1 + spelling(token).len()),
            result: Ok(token),
        }),
{
    match token {
        TokenView::Single(kind) => {
            if kind == TokenType::Print {
                reveal_strlit("print");
                lemma_scan_print(src, cur);
            } else {
                lemma_scan_sign(src, cur, kind);
            }
        },
        TokenView::Number(_, bits) => {
            lemma_scan_number(src, cur, bits);
        },
        _ => {},
    }
}

} // verus!
