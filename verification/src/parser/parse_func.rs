//! The grammar rules that the rule table names.

use vstd::prelude::*;
use crate::common::errors::error::CompilerErrorKind;
use crate::parser::ast::binary_op_node::BinaryAstNode;
use crate::parser::ast::node::AstNode;
use crate::parser::ast::value_node::ValueNode;
use crate::parser::operations::Operations;
use crate::parser::parser::{is_arithmetic, lemma_advance_consumes, tree_result_view, Parsed, Parser};
use crate::parser::precedence::Precedence;
use crate::scanner::tokens::{to_signed, TokenType};

verus! {

/// A grammar rule: what the parser does for a token that starts an
/// expression or that follows a left operand.
#[derive(Clone, Copy, Debug, PartialEq, Eq, Structural)]
pub enum ParseFunc {
    /// A bracketed expression.
    Grouping,
    /// A binary operator with its right operand.
    Binary,
    /// An integer literal.
    IntNumber,
}

/// Runs the rule `rule` on the parser.
pub fn apply(rule: ParseFunc, parser: &mut Parser, can_assign: bool) -> (r: Result<
    Box<AstNode>,
    CompilerErrorKind,
>)
    requires
        old(parser).wf(),
        rule == ParseFunc::Binary ==> old(parser)@.stack.len() > 0 && is_arithmetic(
            old(parser)@.previous.kind(),
        ),
        rule == ParseFunc::IntNumber ==> old(parser)@.previous is Number,
    ensures
        final(parser).wf(),
        old(parser)@.apply(rule) == (Parsed {
            state: final(parser)@,
            result: tree_result_view(r),
        }),
        final(parser)@.remaining() <= old(parser)@.remaining(),
        r is Ok ==> final(parser)@.stack == if rule == ParseFunc::Binary {
            old(parser)@.stack.drop_last()
        } else {
            old(parser)@.stack
        },
    decreases old(parser)@.remaining(), 3nat,
{
    match rule {
        ParseFunc::Grouping => grouping(parser, can_assign),
        ParseFunc::Binary => binary(parser, can_assign),
        ParseFunc::IntNumber => int_number(parser, can_assign),
    }
}

/// The infix rule of the four arithmetic operators: the operator was just
/// passed and its left operand is on top of the stack; the right operand is
/// parsed at the next tighter level.
pub fn binary(parser: &mut Parser, _can_assign: bool) -> (r: Result<
    Box<AstNode>,
    CompilerErrorKind,
>)
    requires
        old(parser).wf(),
        old(parser)@.stack.len() > 0,
        is_arithmetic(old(parser)@.previous.kind()),
    ensures
        final(parser).wf(),
        old(parser)@.binary() == (Parsed { state: final(parser)@, result: tree_result_view(r) }),
        final(parser)@.remaining() <= old(parser)@.remaining(),
        r is Ok ==> final(parser)@.stack == old(parser)@.stack.drop_last(),
    decreases old(parser)@.remaining(), 2nat,
{
    let operator_type = parser.get_previous().get_token_type();
    let rule = operator_type.get_rule();

    let left_hand = parser.pop_ast();
    let next_precedence = match Precedence::from_value(rule.precedence.value() + 1) {
        Some(above) => above,
        None => Precedence::PrecEnd,
    };
    let right_hand = match parser.parse_precedence(next_precedence) {
        Ok(tree) => tree,
        Err(e) => {
            return Err(e);
        },
    };

    let mut node = BinaryAstNode::new(left_hand, right_hand);

    match operator_type {
        TokenType::Plus => node.set_op(Operations::OpIntAdd),
        TokenType::Minus => node.set_op(Operations::OpIntMinus),
        TokenType::Star => node.set_op(Operations::OpIntMul),
        TokenType::Slash => node.set_op(Operations::OpIntDiv),
        _ => {},
    }

    Ok(Box::new(AstNode::Binary(node)))
}

/// The prefix rule of the opening bracket, which was just passed: an
/// expression and the closing bracket.
pub fn grouping(parser: &mut Parser, _can_assign: bool) -> (r: Result<
    Box<AstNode>,
    CompilerErrorKind,
>)
    requires
        old(parser).wf(),
    ensures
        final(parser).wf(),
        old(parser)@.grouping() == (Parsed { state: final(parser)@, result: tree_result_view(r) }),
        final(parser)@.remaining() <= old(parser)@.remaining(),
        r is Ok ==> final(parser)@.stack == old(parser)@.stack,
    decreases old(parser)@.remaining(), 2nat,
{
    let expression = match parser.expression() {
        Ok(tree) => tree,
        Err(e) => {
            return Err(e);
        },
    };
    proof {
        lemma_advance_consumes(parser@);
    }
    match parser.consume(TokenType::RightParen, "Expect ')' after expression.") {
        Ok(_) => {},
        Err(e) => {
            return Err(e);
        },
    }
    Ok(expression)
}

/// The prefix rule of an integer token, which was just passed: its value.
pub fn int_number(parser: &mut Parser, _can_assign: bool) -> (r: Result<
    Box<AstNode>,
    CompilerErrorKind,
>)
    requires
        old(parser).wf(),
        old(parser)@.previous is Number,
    ensures
        final(parser).wf(),
        final(parser)@ == old(parser)@,
        old(parser)@.int_number() == (Parsed {
            state: final(parser)@,
            result: tree_result_view(r),
        }),
{
    let token = parser.get_previous();
    Ok(Box::new(AstNode::Value(ValueNode::new(to_signed(token.get_value())))))
}

} // verus!
