use arith_compiler::common::errors::error::CompilerErrorKind;
use arith_compiler::common::errors::scanner_error::ScannerError;
use arith_compiler::scanner::number_parser::{parse_integer, NumberChecker, NumberParser};
use arith_compiler::scanner::tokens::{to_bits, to_signed, Token, TokenType};
use arith_compiler::utils::trie::{KeywordTrie, Trie, TrieNode};

#[test]
fn errors_are_described_with_their_kind() {
    assert_eq!(
        CompilerErrorKind::ScannerError(3, 14, "bad".to_string()).describe(),
        "Scanner Error (line: 3, column: 14, message: bad)"
    );
    assert_eq!(
        CompilerErrorKind::CompilerError(120, 0, "worse".to_string()).describe(),
        "Compiler Error: (line: 120, column: 0, message: worse)"
    );
    assert_eq!(
        CompilerErrorKind::FileError("disk".to_string()).describe(),
        "File operation Error: disk"
    );
    assert_eq!(
        CompilerErrorKind::CodeGeneratorError("full".to_string()).describe(),
        "Code Generator Error: full"
    );
    assert_eq!(
        CompilerErrorKind::InternalError("odd".to_string()).describe(),
        "Internal Error: odd"
    );
}

#[test]
fn a_scanner_error_names_its_line() {
    let error = ScannerError::new(7, "stray".to_string());
    assert_eq!(error.line, 7);
    assert_eq!(error.message, "stray");
    assert_eq!(error.describe(), "[line 7] Error: stray");
}

#[test]
fn integers_are_parsed_in_base_ten() {
    let parse = |text: &str| parse_integer(&text.chars().collect());
    assert_eq!(parse("0"), Some(0));
    assert_eq!(parse("007"), Some(7));
    assert_eq!(parse("123"), Some(123));
    assert_eq!(parse("+5"), Some(5));
    assert_eq!(parse("-5"), Some(-5));
    assert_eq!(parse("9223372036854775807"), Some(i64::MAX));
    assert_eq!(parse("9223372036854775808"), None);
    assert_eq!(parse("-9223372036854775808"), Some(i64::MIN));
    assert_eq!(parse("-9223372036854775809"), None);
    assert_eq!(parse("99999999999999999999"), None);
    assert_eq!(parse(""), None);
    assert_eq!(parse("-"), None);
    assert_eq!(parse("+"), None);
    assert_eq!(parse("1_000"), None);
    assert_eq!(parse("1.5"), None);
    assert_eq!(parse("12a"), None);
    assert_eq!(parse(" 1"), None);
}

#[test]
fn the_number_checker_collects_and_validates() {
    let mut checker = NumberParser::new().into_checker();
    for c in "4096".chars() {
        assert!(checker.can_consume(&c));
        checker.update(c);
    }
    assert_eq!(checker.check(), Ok(4096));
    // the buffer is empty again
    assert!(checker.check().is_err());
    let mut checker = NumberChecker::new();
    for c in "1a_.".chars() {
        assert!(checker.can_consume(&c));
        checker.update(c);
    }
    assert!(!checker.can_consume(&' '));
    assert!(!checker.can_consume(&'+'));
    assert_eq!(
        checker.check(),
        Err(CompilerErrorKind::ScannerError(0, 0, "Invalid number literal.".to_string()))
    );
}

#[test]
fn tokens_carry_their_kind() {
    assert_eq!(Token::single_token(TokenType::Plus).get_token_type(), TokenType::Plus);
    assert_eq!(Token::identifier("abc").get_token_type(), TokenType::Identifier);
    assert_eq!(Token::number_token(5).get_token_type(), TokenType::Integer);
    assert_eq!(Token::text_token(TokenType::Char, "c").get_token_type(), TokenType::Char);
    assert_eq!(Token::text_token(TokenType::String, "s").get_token_type(), TokenType::String);
    assert_eq!(Token::NoToken.get_token_type(), TokenType::NoToken);
    assert_eq!(Token::number_token(5).get_value(), 5);
    assert_eq!(Token::number_token(-1).get_value(), u64::MAX);
    let copy = Token::identifier("abc").clone();
    assert!(matches!(copy, Token::Identifier(text) if text == "abc"));
}

#[test]
fn bits_and_signed_numbers_agree() {
    for value in [0i64, 1, -1, 42, -42, i64::MAX, i64::MIN] {
        assert_eq!(to_bits(value), value as u64);
        assert_eq!(to_signed(to_bits(value)), value);
    }
    assert_eq!(to_signed(u64::MAX), -1);
    assert_eq!(to_signed(1 << 63), i64::MIN);
}

#[test]
fn inserted_words_are_found_and_prefixes_are_not() {
    let mut trie = KeywordTrie::empty();
    assert_eq!(trie.query(""), None);
    assert_eq!(trie.query("in"), None);
    trie.insert("int", TokenType::KeyInt);
    trie.insert("in", TokenType::For);
    trie.insert("int", TokenType::KeyLong);
    assert_eq!(trie.query("int"), Some(TokenType::KeyLong));
    assert_eq!(trie.query("in"), Some(TokenType::For));
    assert_eq!(trie.query("i"), None);
    assert_eq!(trie.query(""), None);
    assert_eq!(trie.query("inta"), None);
    assert_eq!(trie.query("ant"), None);
    trie.insert("", TokenType::Eof);
    assert_eq!(trie.query(""), Some(TokenType::Eof));
    trie.insert("größe", TokenType::Identifier);
    assert_eq!(trie.query("größe"), Some(TokenType::Identifier));
    assert_eq!(trie.query("grösse"), None);
}

#[test]
fn the_checker_agrees_with_a_query() {
    let trie = KeywordTrie::new();
    for word in ["print", "prin", "printer", "while", "", "x", "double", "doubl", "int", "in"] {
        let mut checker = trie.into_checker();
        for c in word.chars() {
            checker.update(c);
        }
        assert_eq!(checker.check(), trie.query(word), "{}", word);
    }
}

#[test]
fn the_checker_keeps_the_text_it_was_fed() {
    let trie = KeywordTrie::new();
    let mut checker = trie.into_checker();
    for c in "breaks".chars() {
        assert!(checker.can_consume(&c));
        checker.update(c);
    }
    assert!(!checker.can_consume(&'-'));
    assert_eq!(checker.get_str(), Ok("breaks".to_string()));
    assert_eq!(checker.get_str(), Ok("".to_string()));
    assert_eq!(checker.check(), None);
    for c in "if".chars() {
        checker.update(c);
    }
    assert_eq!(checker.check(), Some(TokenType::If));
    // check empties the buffer too
    assert_eq!(checker.get_str(), Ok("".to_string()));
}

#[test]
fn a_node_can_be_built_by_hand() {
    let mut node = TrieNode::new();
    node.add_node('a');
    node.set_leaf();
    node.set_token_type(TokenType::If);
}
