use arith_compiler::common::errors::error::CompilerErrorKind;
use arith_compiler::scanner::scanner::Scanner;
use arith_compiler::scanner::tokens::{Token, TokenType};
use arith_compiler::source_code::SourceCode;

fn scan_all(text: &str) -> Vec<Token> {
    let source = SourceCode::new(text.to_string());
    let mut scanner = Scanner::new(&source);
    let mut tokens = Vec::new();
    loop {
        let token = scanner.scan().expect("scan failed");
        let done = token.get_token_type() == TokenType::Eof;
        tokens.push(token);
        if done {
            return tokens;
        }
    }
}

fn kinds(text: &str) -> Vec<TokenType> {
    scan_all(text).iter().map(|t| t.get_token_type()).collect()
}

#[test]
fn break_is_a_keyword() {
    let tokens = scan_all("break");
    assert_eq!(tokens.len(), 2);
    assert!(matches!(tokens[0], Token::Single(TokenType::Break)));
    assert!(matches!(tokens[1], Token::Single(TokenType::Eof)));
}

#[test]
fn breaks_is_an_identifier() {
    let tokens = scan_all("breaks");
    assert_eq!(tokens.len(), 2);
    match &tokens[0] {
        Token::Identifier(text) => assert_eq!(text, "breaks"),
        other => panic!("unexpected token {:?}", other),
    }
}

#[test]
fn digits_are_an_integer() {
    let tokens = scan_all("123");
    assert_eq!(tokens.len(), 2);
    match &tokens[0] {
        Token::Number(kind, value) => {
            assert_eq!(*kind, TokenType::Integer);
            assert_eq!(value.get_value(), 123);
        }
        other => panic!("unexpected token {:?}", other),
    }
    assert_eq!(tokens[0].get_value(), 123);
}

#[test]
fn second_line_is_line_two() {
    let source = SourceCode::new("a\nb".to_string());
    let mut scanner = Scanner::new(&source);
    assert_eq!(scanner.get_position(), (1, 0));
    let a = scanner.scan().unwrap();
    assert!(matches!(a, Token::Identifier(_)));
    assert_eq!(scanner.get_position(), (1, 1));
    let b = scanner.scan().unwrap();
    match b {
        Token::Identifier(text) => assert_eq!(text, "b"),
        other => panic!("unexpected token {:?}", other),
    }
    assert_eq!(scanner.get_position(), (2, 1));
}

#[test]
fn operators_take_two_characters_where_they_can() {
    assert_eq!(
        kinds("+ += - -= * *= / /= & &= | |= ^ ^= ~ ~= = == ! != > >= >> < <= <<"),
        vec![
            TokenType::Plus,
            TokenType::PlusEqual,
            TokenType::Minus,
            TokenType::MinusEqual,
            TokenType::Star,
            TokenType::StarEqual,
            TokenType::Slash,
            TokenType::SlashEqual,
            TokenType::And,
            TokenType::AndEqual,
            TokenType::Or,
            TokenType::OrEqual,
            TokenType::Cap,
            TokenType::CapEqual,
            TokenType::Wave,
            TokenType::WaveEqual,
            TokenType::Equal,
            TokenType::EqualEqual,
            TokenType::Not,
            TokenType::NotEqual,
            TokenType::Greater,
            TokenType::GreaterEqual,
            TokenType::RightArrow,
            TokenType::Less,
            TokenType::LessEqual,
            TokenType::LeftArrow,
            TokenType::Eof,
        ]
    );
}

#[test]
fn punctuation_is_recognised() {
    assert_eq!(
        kinds("#(){},;"),
        vec![
            TokenType::Hash,
            TokenType::LeftParen,
            TokenType::RightParen,
            TokenType::LeftBrace,
            TokenType::RightBrace,
            TokenType::Comma,
            TokenType::Semicolon,
            TokenType::Eof,
        ]
    );
}

#[test]
fn every_keyword_is_recognised() {
    assert_eq!(
        kinds("break continue if else for while return int long float double string print"),
        vec![
            TokenType::Break,
            TokenType::Continue,
            TokenType::If,
            TokenType::Else,
            TokenType::For,
            TokenType::While,
            TokenType::Return,
            TokenType::KeyInt,
            TokenType::KeyLong,
            TokenType::KeyFloat,
            TokenType::KeyDouble,
            TokenType::KeyString,
            TokenType::Print,
            TokenType::Eof,
        ]
    );
}

#[test]
fn comments_are_passed_over() {
    assert_eq!(
        kinds("1 // one\n+ /* two ** / */ 2 /* open"),
        vec![TokenType::Integer, TokenType::Plus, TokenType::Integer, TokenType::Eof]
    );
    assert_eq!(kinds("// only a comment"), vec![TokenType::Eof]);
}

#[test]
fn eof_can_be_read_again() {
    let source = SourceCode::new("".to_string());
    let mut scanner = Scanner::new(&source);
    for _ in 0..3 {
        let token = scanner.scan().unwrap();
        assert_eq!(token.get_token_type(), TokenType::Eof);
    }
    assert_eq!(scanner.get_position(), (1, 3));
}

#[test]
fn literals_keep_their_raw_text() {
    let tokens = scan_all("\"a\\\"b\" 'c'");
    match &tokens[0] {
        Token::Text(kind, text) => {
            assert_eq!(*kind, TokenType::String);
            assert_eq!(text.as_str(), "a\\\"b");
        }
        other => panic!("unexpected token {:?}", other),
    }
    match &tokens[1] {
        Token::Text(kind, text) => {
            assert_eq!(*kind, TokenType::Char);
            assert_eq!(text.as_str(), "c");
        }
        other => panic!("unexpected token {:?}", other),
    }
    let open = scan_all("\"abc");
    match &open[0] {
        Token::Text(kind, text) => {
            assert_eq!(*kind, TokenType::String);
            assert_eq!(text.as_str(), "abc");
        }
        other => panic!("unexpected token {:?}", other),
    }
}

fn scan_error(text: &str) -> CompilerErrorKind {
    let source = SourceCode::new(text.to_string());
    let mut scanner = Scanner::new(&source);
    loop {
        match scanner.scan() {
            Ok(token) => {
                assert!(token.get_token_type() != TokenType::Eof, "no error in {:?}", text);
            }
            Err(e) => return e,
        }
    }
}

#[test]
fn newline_in_a_literal_is_an_error() {
    match scan_error("x \"ab\ncd\"") {
        CompilerErrorKind::ScannerError(line, column, message) => {
            assert_eq!((line, column), (1, 5));
            assert_eq!(message, "Cannot have '\n' between quotes.");
        }
        _ => panic!("wrong kind of error"),
    }
}

#[test]
fn stray_comment_end_is_an_error() {
    match scan_error("1 */") {
        CompilerErrorKind::ScannerError(line, column, message) => {
            assert_eq!((line, column), (1, 4));
            assert_eq!(message, "unrecognized end of comment '*/'");
        }
        _ => panic!("wrong kind of error"),
    }
}

#[test]
fn unknown_character_is_an_error() {
    match scan_error("\n  @") {
        CompilerErrorKind::ScannerError(line, column, message) => {
            assert_eq!((line, column), (2, 3));
            assert_eq!(message, "unrecognized character: '@'");
        }
        _ => panic!("wrong kind of error"),
    }
}

#[test]
fn malformed_number_is_an_error() {
    match scan_error("12ab") {
        CompilerErrorKind::ScannerError(line, column, message) => {
            assert_eq!((line, column), (1, 4));
            assert_eq!(message, "Invalid number literal.");
        }
        _ => panic!("wrong kind of error"),
    }
    assert!(matches!(scan_error("1.5"), CompilerErrorKind::ScannerError(1, 3, _)));
    assert!(matches!(
        scan_error("9223372036854775808"),
        CompilerErrorKind::ScannerError(1, 19, _)
    ));
    let tokens = scan_all("9223372036854775807");
    assert_eq!(tokens[0].get_value(), 9223372036854775807);
}
