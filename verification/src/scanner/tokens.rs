//! The tokens that the scanner produces.

use vstd::prelude::*;

verus! {

/// The kind of a token.
#[derive(Clone, Copy, Debug, PartialEq, Eq, Structural)]
pub enum TokenType {
    LeftParen,
    RightParen,
    LeftBrace,
    RightBrace,
    Comma,
    Semicolon,
    LeftArrow,
    RightArrow,
    Identifier,
    Char,
    String,
    Integer,
    Double,
    Eof,
    /// The kind of the empty token.
    NoToken,
    // Operators
    Plus,
    PlusEqual,
    Minus,
    MinusEqual,
    Star,
    StarEqual,
    Slash,
    SlashEqual,
    And,
    AndEqual,
    Or,
    OrEqual,
    Cap,
    CapEqual,
    Wave,
    WaveEqual,
    Not,
    Hash,
    Greater,
    GreaterEqual,
    Less,
    LessEqual,
    Equal,
    EqualEqual,
    NotEqual,
    // Type keywords
    KeyInt,
    KeyLong,
    KeyDouble,
    KeyFloat,
    KeyString,
    // Keywords
    Break,
    Continue,
    Return,
    If,
    Else,
    For,
    While,
    Print,
}

/// The 64 bits that a number token carries.
#[derive(Debug)]
pub struct TokenValue {
    value: Box<u64>,
}

impl View for TokenValue {
    type V = u64;

    closed spec fn view(&self) -> u64 {
        *self.value
    }
}

impl Clone for TokenValue {
    fn clone(&self) -> (r: Self)
        ensures
            r@ == self@,
    {
        TokenValue { value: Box::new(*self.value) }
    }
}

impl TokenValue {
    pub fn get_value(&self) -> (v: u64)
        ensures
            v == self@,
    {
        *self.value
    }
}

/// The smallest lexical unit.
#[derive(Debug)]
pub enum Token {
    /// No token: what a slot holds before anything was read.
    NoToken,
    /// Punctuation, an operator or a keyword.
    Single(TokenType),
    /// An identifier and its text.
    Identifier(String),
    /// A number literal: its kind (`Integer` or `Double`) and its bits.
    Number(TokenType, TokenValue),
    /// A character or string literal: its kind (`Char` or `String`) and its raw text.
    Text(TokenType, Box<String>),
}

/// The mathematical content of a [`Token`].
pub enum TokenView {
    NoToken,
    Single(TokenType),
    Identifier(Seq<char>),
    Number(TokenType, u64),
    Text(TokenType, Seq<char>),
}

impl TokenView {
    /// The kind that the token carries.
    pub open spec fn kind(self) -> TokenType {
        match self {
            TokenView::Single(t) => t,
            TokenView::Identifier(_) => TokenType::Identifier,
            TokenView::Number(t, _) => t,
            TokenView::Text(t, _) => t,
            TokenView::NoToken => TokenType::NoToken,
        }
    }
}

impl TokenView {
    /// The payload fits the kind: a number token has the kind `Integer` or
    /// `Double`, a literal has `Char` or `String`, and a token without payload
    /// has none of the kinds that promise one.
    pub open spec fn well_kinded(self) -> bool {
        match self {
            TokenView::NoToken => true,
            TokenView::Single(t) => t != TokenType::Identifier && t != TokenType::Integer && t
                != TokenType::Double && t != TokenType::Char && t != TokenType::String && t
                != TokenType::NoToken,
            TokenView::Identifier(_) => true,
            TokenView::Number(t, _) => t == TokenType::Integer || t == TokenType::Double,
            TokenView::Text(t, _) => t == TokenType::Char || t == TokenType::String,
        }
    }
}

impl View for Token {
    type V = TokenView;

    open spec fn view(&self) -> TokenView {
        match *self {
            Token::NoToken => TokenView::NoToken,
            Token::Single(t) => TokenView::Single(t),
            Token::Identifier(s) => TokenView::Identifier(s@),
            Token::Number(t, v) => TokenView::Number(t, v@),
            Token::Text(t, s) => TokenView::Text(t, s@),
        }
    }
}

impl Clone for Token {
    fn clone(&self) -> (r: Self)
        ensures
            r@ == self@,
    {
        match self {
            Token::NoToken => Token::NoToken,
            Token::Single(t) => Token::Single(*t),
            Token::Identifier(s) => Token::Identifier(s.clone()),
            Token::Number(t, v) => Token::Number(*t, v.clone()),
            Token::Text(t, s) => Token::Text(*t, Box::new((**s).clone())),
        }
    }
}

/// The 64 bits of a signed number, in two's complement.
pub open spec fn bits_of(value: i64) -> u64 {
    if value >= 0 {
        value as u64
    } else {
        (value + 0x1_0000_0000_0000_0000) as u64
    }
}

/// The signed number that 64 bits stand for, in two's complement.
pub open spec fn signed_of(bits: u64) -> i64 {
    if bits < 0x8000_0000_0000_0000 {
        bits as i64
    } else {
        (bits - 0x1_0000_0000_0000_0000) as i64
    }
}

/// Reading the bits of a signed number back gives the number.
pub proof fn lemma_signed_of_bits(value: i64)
    ensures
        signed_of(bits_of(value)) == value,
{
}

/// The 64 bits of a signed number, in two's complement.
pub fn to_bits(value: i64) -> (bits: u64)
    ensures
        bits == bits_of(value),
{
    if value >= 0 {
        value as u64
    } else {
        let low: u64 = (value + i64::MAX + 1) as u64;
        low + 0x8000_0000_0000_0000u64
    }
}

/// The signed number that 64 bits stand for, in two's complement.
pub fn to_signed(bits: u64) -> (value: i64)
    ensures
        value == signed_of(bits),
{
    if bits < 0x8000_0000_0000_0000u64 {
        bits as i64
    } else {
        let low: u64 = bits - 0x8000_0000_0000_0000u64;
        (low as i64) + i64::MIN
    }
}

impl Token {
    pub fn single_token(token_type: TokenType) -> (t: Self)
        ensures
            t@ == TokenView::Single(token_type),
    {
        Self::Single(token_type)
    }

    /// An integer token that carries the bits of `value`.
    pub fn number_token(value: i64) -> (t: Self)
        ensures
            t@ == TokenView::Number(TokenType::Integer, bits_of(value)),
    {
        Self::Number(TokenType::Integer, TokenValue { value: Box::new(to_bits(value)) })
    }

    /// A literal token of the given kind, which is `Char` or `String`.
    pub fn text_token(token_type: TokenType, value: &str) -> (t: Self)
        ensures
            t@ == TokenView::Text(token_type, value@),
    {
        Self::Text(token_type, Box::new(value.to_owned()))
    }

    pub fn identifier(text: &str) -> (t: Self)
        ensures
            t@ == TokenView::Identifier(text@),
    {
        Self::Identifier(text.to_owned())
    }

    pub fn get_token_type(&self) -> (k: TokenType)
        ensures
            k == self@.kind(),
    {
        match self {
            Token::Single(t) => *t,
            Token::Identifier(_) => TokenType::Identifier,
            Token::Number(t, _) => *t,
            Token::Text(t, _) => *t,
            Token::NoToken => TokenType::NoToken,
        }
    }

    /// The bits of a number token.
    pub fn get_value(&self) -> (v: u64)
        requires
            self@ is Number,
        ensures
            self@ matches TokenView::Number(_, bits) && v == bits,
    {
        match self {
            Token::Number(_, value) => value.get_value(),
            _ => 0,
        }
    }
}

} // verus!
