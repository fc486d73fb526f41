use arith_compiler::common::errors::error::CompilerErrorKind;
use arith_compiler::parser::ast::node::AstNode;
use arith_compiler::parser::operations::Operations;
use arith_compiler::parser::parse_func::ParseFunc;
use arith_compiler::parser::parser::Parser;
use arith_compiler::parser::precedence::Precedence;
use arith_compiler::scanner::scanner::Scanner;
use arith_compiler::scanner::tokens::TokenType;
use arith_compiler::source_code::SourceCode;

/// A tree in brackets: `(op left right)`, `(print e)`, `{s; s}`.
fn show(node: &AstNode) -> String {
    match node {
        AstNode::Value(v) => format!("{}", v.get_value()),
        AstNode::Binary(b) => {
            let op = match b.get_op() {
                Operations::OpIntAdd => "+",
                Operations::OpIntMinus => "-",
                Operations::OpIntMul => "*",
                Operations::OpIntDiv => "/",
                _ => "?",
            };
            format!("({} {} {})", op, show(&b.left), show(&b.right))
        }
        AstNode::Block(b) => {
            let inner: Vec<String> = b.block.iter().map(|s| show(s)).collect();
            format!("{{{}}}", inner.join("; "))
        }
        AstNode::Print(p) => format!("(print {})", show(&p.expr)),
    }
}

fn parse_statement(text: &str) -> Result<String, CompilerErrorKind> {
    let source = SourceCode::new(text.to_string());
    let mut scanner = Scanner::new(&source);
    let mut parser = Parser::new(&mut scanner)?;
    parser.statement().map(|tree| show(&tree))
}

fn parse_program(text: &str) -> Result<String, CompilerErrorKind> {
    let source = SourceCode::new(text.to_string());
    let mut scanner = source.into_scanner();
    let mut parser = source.into_parser(&mut scanner)?;
    parser.parse().map(|tree| show(&tree))
}

#[test]
fn multiplication_binds_tighter_than_addition() {
    assert_eq!(parse_statement("1+2*3;").unwrap(), "(+ 1 (* 2 3))");
    assert_eq!(parse_statement("1*2+3;").unwrap(), "(+ (* 1 2) 3)");
    assert_eq!(parse_statement("8/4-2;").unwrap(), "(- (/ 8 4) 2)");
}

#[test]
fn subtraction_groups_to_the_left() {
    assert_eq!(parse_statement("1-2-3;").unwrap(), "(- (- 1 2) 3)");
    assert_eq!(parse_statement("8/4/2;").unwrap(), "(/ (/ 8 4) 2)");
    assert_eq!(parse_statement("1+2-3+4;").unwrap(), "(+ (- (+ 1 2) 3) 4)");
}

#[test]
fn brackets_group() {
    assert_eq!(parse_statement("(1+2)*3;").unwrap(), "(* (+ 1 2) 3)");
    assert_eq!(parse_statement("1-(2-3);").unwrap(), "(- 1 (- 2 3))");
    assert_eq!(parse_statement("((7));").unwrap(), "7");
}

#[test]
fn print_wraps_its_expression() {
    assert_eq!(parse_statement("print 1+2*3;").unwrap(), "(print (+ 1 (* 2 3)))");
}

#[test]
fn a_program_is_a_block() {
    assert_eq!(parse_program("{ print 1+2*3; }").unwrap(), "{(print (+ 1 (* 2 3)))}");
    assert_eq!(parse_program("{ print 1; 2+3; }").unwrap(), "{(print 1); (+ 2 3)}");
    assert_eq!(parse_program("1; 2; }").unwrap(), "{1; 2}");
    assert_eq!(parse_program("}").unwrap(), "{}");
    assert_eq!(parse_program("{}").unwrap(), "{}");
}

#[test]
fn a_block_must_be_closed() {
    assert_eq!(
        parse_program("print 1+2*3;"),
        Err(CompilerErrorKind::CompilerError(1, 14, "Expect '}' after block".to_string()))
    );
    assert_eq!(
        parse_program(""),
        Err(CompilerErrorKind::CompilerError(1, 2, "Expect '}' after block".to_string()))
    );
}

#[test]
fn an_opened_block_must_be_closed() {
    // ten characters, then the end of the text is read twice: once as the
    // token ahead, once when that token is passed
    assert_eq!(
        parse_program("{ print 1;"),
        Err(CompilerErrorKind::CompilerError(1, 12, "Expect '}' after block".to_string()))
    );
    assert_eq!(
        parse_program("{ print 1; 2"),
        Err(CompilerErrorKind::CompilerError(
            1,
            13,
            "Expected ';' after expression.".to_string()
        ))
    );
}

#[test]
fn missing_operator_is_a_parse_error() {
    assert_eq!(
        parse_statement("print 1 2;"),
        Err(CompilerErrorKind::CompilerError(
            1,
            9,
            "Expected ';' after expression.".to_string()
        ))
    );
    assert_eq!(
        parse_program("print 1 2;"),
        Err(CompilerErrorKind::CompilerError(
            1,
            9,
            "Expected ';' after expression.".to_string()
        ))
    );
}

#[test]
fn a_token_that_starts_no_expression_is_a_parse_error() {
    assert_eq!(
        parse_statement("+1;"),
        Err(CompilerErrorKind::CompilerError(1, 2, "Expected expression.".to_string()))
    );
    assert_eq!(
        parse_statement("1+;"),
        Err(CompilerErrorKind::CompilerError(1, 4, "Expected expression.".to_string()))
    );
    assert_eq!(
        parse_statement("x;"),
        Err(CompilerErrorKind::CompilerError(1, 2, "Expected expression.".to_string()))
    );
    assert_eq!(
        parse_statement(""),
        Err(CompilerErrorKind::CompilerError(1, 2, "Expected expression.".to_string()))
    );
}

#[test]
fn a_bracket_behind_an_operand_is_a_parse_error() {
    assert_eq!(
        parse_statement("1 (2);"),
        Err(CompilerErrorKind::CompilerError(1, 4, "Expected operator.".to_string()))
    );
}

#[test]
fn an_unclosed_group_is_a_parse_error() {
    assert_eq!(
        parse_statement("(1+2;"),
        Err(CompilerErrorKind::CompilerError(
            1,
            5,
            "Expect ')' after expression.".to_string()
        ))
    );
}

#[test]
fn an_assignment_to_a_value_is_a_parse_error() {
    assert_eq!(
        parse_statement("1 = 2;"),
        Err(CompilerErrorKind::CompilerError(1, 5, "Invalid assignment target.".to_string()))
    );
}

#[test]
fn a_scanning_error_ends_the_parse() {
    assert_eq!(
        parse_statement("1 + @;"),
        Err(CompilerErrorKind::ScannerError(1, 5, "unrecognized character: '@'".to_string()))
    );
    let source = SourceCode::new("@".to_string());
    let mut scanner = Scanner::new(&source);
    assert!(matches!(
        Parser::new(&mut scanner),
        Err(CompilerErrorKind::ScannerError(1, 1, _))
    ));
}

#[test]
fn the_parser_keeps_one_token_of_look_ahead() {
    let source = SourceCode::new("1 + 2".to_string());
    let mut scanner = Scanner::new(&source);
    let mut parser = Parser::new(&mut scanner).unwrap();
    assert_eq!(parser.get_previous().get_token_type(), TokenType::NoToken);
    assert_eq!(parser.get_current().get_token_type(), TokenType::Integer);
    parser.consume(TokenType::Integer, "number").unwrap();
    assert_eq!(parser.get_previous().get_token_type(), TokenType::Integer);
    assert_eq!(parser.get_previous().get_value(), 1);
    assert_eq!(parser.get_current().get_token_type(), TokenType::Plus);
    assert_eq!(
        parser.consume(TokenType::Minus, "minus"),
        Err(CompilerErrorKind::CompilerError(1, 3, "minus".to_string()))
    );
}

#[test]
fn a_double_arrow_can_be_split() {
    let source = SourceCode::new("1 >> 2".to_string());
    let mut scanner = Scanner::new(&source);
    let mut parser = Parser::new(&mut scanner).unwrap();
    assert!(!parser.split_current());
    parser.consume(TokenType::Integer, "number").unwrap();
    assert_eq!(parser.get_current().get_token_type(), TokenType::RightArrow);
    assert!(parser.split_current());
    assert_eq!(parser.get_current().get_token_type(), TokenType::Greater);
    assert!(!parser.split_current());
    parser.consume(TokenType::Greater, "first half").unwrap();
    assert_eq!(parser.get_current().get_token_type(), TokenType::Greater);
    parser.consume(TokenType::Greater, "second half").unwrap();
    assert_eq!(parser.get_current().get_token_type(), TokenType::Integer);
    assert_eq!(parser.get_current().get_value(), 2);
}

#[test]
fn the_stack_passes_the_left_operand() {
    let source = SourceCode::new("1 + 2 * 3".to_string());
    let mut scanner = Scanner::new(&source);
    let mut parser = Parser::new(&mut scanner).unwrap();
    parser.consume(TokenType::Integer, "number").unwrap();
    let one = arith_compiler::parser::parse_func::int_number(&mut parser, false).unwrap();
    parser.push_ast(one);
    parser.consume(TokenType::Plus, "plus").unwrap();
    let sum = arith_compiler::parser::parse_func::binary(&mut parser, false).unwrap();
    assert_eq!(show(&sum), "(+ 1 (* 2 3))");
    parser.push_ast(sum);
    assert_eq!(show(&parser.pop_ast()), "(+ 1 (* 2 3))");
}

#[test]
fn precedence_levels_are_numbered_in_order() {
    assert_eq!(Precedence::PrecNone.value(), 0);
    assert_eq!(Precedence::PrecAssignment.value(), 1);
    assert_eq!(Precedence::PrecTerm.value(), 6);
    assert_eq!(Precedence::PrecFactor.value(), 7);
    assert_eq!(Precedence::PrecEnd.value(), 13);
    for value in 0..=13u8 {
        assert_eq!(Precedence::from_value(value).unwrap().value(), value);
    }
    assert_eq!(Precedence::from_value(14), None);
}

#[test]
fn the_rule_table_names_the_rules() {
    let plus = TokenType::Plus.get_rule();
    assert_eq!(plus.get_prefix(), None);
    assert_eq!(plus.get_infix(), Some(ParseFunc::Binary));
    assert_eq!(plus.precedence, Precedence::PrecTerm);
    let star = TokenType::Star.get_rule();
    assert_eq!(star.get_infix(), Some(ParseFunc::Binary));
    assert_eq!(star.precedence, Precedence::PrecFactor);
    let paren = TokenType::LeftParen.get_rule();
    assert_eq!(paren.get_prefix(), Some(ParseFunc::Grouping));
    assert_eq!(paren.get_infix(), None);
    let number = TokenType::Integer.get_rule();
    assert_eq!(number.get_prefix(), Some(ParseFunc::IntNumber));
    let other = TokenType::Identifier.get_rule();
    assert_eq!(other.get_prefix(), None);
    assert_eq!(other.get_infix(), None);
    assert_eq!(other.precedence, Precedence::PrecNone);
}
