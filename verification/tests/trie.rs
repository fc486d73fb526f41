use arith_compiler::scanner::tokens::TokenType;
use arith_compiler::utils::trie::{KeywordTrie, Trie};

#[test]
fn test_trie() {
    let mut trie = KeywordTrie::new();

    trie.insert("break", TokenType::Break);
    trie.insert("continue", TokenType::Continue);
    trie.insert("if", TokenType::If);
    trie.insert("else", TokenType::Else);
    trie.insert("for", TokenType::For);
    trie.insert("while", TokenType::While);
    trie.insert("return", TokenType::Return);

    assert_eq!(trie.query("break"), Some(TokenType::Break));
    assert_eq!(trie.query("continue"), Some(TokenType::Continue));
    assert_eq!(trie.query("if"), Some(TokenType::If));
    assert_eq!(trie.query("else"), Some(TokenType::Else));
    assert_eq!(trie.query("for"), Some(TokenType::For));
    assert_eq!(trie.query("while"), Some(TokenType::While));
    assert_eq!(trie.query("return"), Some(TokenType::Return));

    assert_eq!(trie.query("i"), None);
    assert_eq!(trie.query("whilea"), None);
    assert_eq!(trie.query("esle"), None);
    assert_eq!(trie.query("retun"), None);
    assert_eq!(trie.query("contin"), None);
}

#[test]
fn test_checker_normal_checks() {
    let mut trie = KeywordTrie::new();

    trie.insert("break", TokenType::Break);
    trie.insert("continue", TokenType::Continue);
    trie.insert("if", TokenType::If);
    trie.insert("else", TokenType::Else);
    trie.insert("for", TokenType::For);
    trie.insert("while", TokenType::While);
    trie.insert("return", TokenType::Return);

    let checker = trie.into_checker();

    assert_eq!(checker.query("break"), Some(TokenType::Break));
    assert_eq!(checker.query("continue"), Some(TokenType::Continue));
    assert_eq!(checker.query("if"), Some(TokenType::If));
    assert_eq!(checker.query("else"), Some(TokenType::Else));
    assert_eq!(checker.query("for"), Some(TokenType::For));
    assert_eq!(checker.query("while"), Some(TokenType::While));
    assert_eq!(checker.query("return"), Some(TokenType::Return));

    assert_eq!(checker.query("i"), None);
    assert_eq!(checker.query("whilea"), None);
    assert_eq!(checker.query("esle"), None);
    assert_eq!(checker.query("retun"), None);
    assert_eq!(checker.query("contin"), None);
}

#[test]
fn test_check_on_the_fly() {
    let mut trie = KeywordTrie::new();

    trie.insert("break", TokenType::Break);
    trie.insert("continue", TokenType::Continue);
    trie.insert("if", TokenType::If);
    trie.insert("else", TokenType::Else);
    trie.insert("for", TokenType::For);
    trie.insert("while", TokenType::While);
    trie.insert("return", TokenType::Return);

    let mut checker = trie.into_checker();

    checker.update('b');
    assert_eq!(checker.check(), None);

    checker.update('b');
    checker.update('r');
    checker.update('e');
    checker.update('a');
    checker.update('k');
    assert_eq!(checker.check(), Some(TokenType::Break));
    assert_eq!(checker.check(), None);

    checker.update('c');
    checker.update('o');
    checker.update('n');
    checker.update('t');
    checker.update('t');
    assert_eq!(checker.check(), None);
}
