//! The grammar of expressions: how an expression is written in tokens, and
//! the proof that the parser reads back what was written.

use vstd::prelude::*;
use crate::parser::ast::node::Tree;
use crate::parser::operations::Operations;
use crate::parser::parse_func::ParseFunc;
use crate::parser::parser::{
    lemma_advance_consumes,
    lemma_apply_moves_on,
    Parsed,
    ParserView,
};
use crate::parser::precedence::{rule_of, Precedence};
use crate::scanner::tokens::{bits_of, lemma_signed_of_bits, TokenType, TokenView};

verus! {

/// The token kind that writes an arithmetic operator.
pub open spec fn kind_of_op(op: Operations) -> TokenType {
    match op {
        Operations::OpIntAdd => TokenType::Plus,
        Operations::OpIntMinus => TokenType::Minus,
        Operations::OpIntMul => TokenType::Star,
        _ => TokenType::Slash,
    }
}

/// How tightly an arithmetic operator binds: the number of its level.
pub open spec fn binding(op: Operations) -> nat {
    rule_of(kind_of_op(op)).precedence.level() as nat
}

/// Whether an expression must stand in brackets where operators have to bind
/// at least as tightly as `level`.
pub open spec fn needs_brackets(tree: Tree, level: nat) -> bool {
    tree matches Tree::Binary(op, _, _) && binding(op) < level
}

/// The tokens of an expression without brackets around it: a value is its
/// number; an operation is its left operand, written for the level of the
/// operator, the operator, and its right operand, written for the next
/// tighter level, so that operators of one level group to the left.
pub open spec fn bare_tokens(tree: Tree) -> Seq<TokenView>
    decreases tree, 0nat,
{
    match tree {
        Tree::Value(value) => seq![TokenView::Number(TokenType::Integer, bits_of(value))],
        Tree::Binary(op, left, right) => tokens_of(*left, binding(op)) + seq![
            TokenView::Single(kind_of_op(op)),
        ] + tokens_of(*right, binding(op) + 1),
        _ => Seq::empty(),
    }
}

/// The tokens of an expression where operators have to bind at least as
/// tightly as `level`: in brackets if its own operator binds less tightly.
pub open spec fn tokens_of(tree: Tree, level: nat) -> Seq<TokenView>
    decreases tree, 1nat,
{
    if needs_brackets(tree, level) {
        seq![TokenView::Single(TokenType::LeftParen)] + bare_tokens(tree) + seq![
            TokenView::Single(TokenType::RightParen),
        ]
    } else {
        bare_tokens(tree)
    }
}

/// The parser after `n` tokens were passed.
pub open spec fn advance_by(state: ParserView, n: nat) -> ParserView
    decreases n,
{
    if n == 0 {
        state
    } else {
        advance_by(state.advance().state, (n - 1) as nat)
    }
}

/// The tokens ahead of the parser begin with `tokens`: the first is the
/// token ahead, and each can be passed to have the next one ahead.
pub open spec fn reads(state: ParserView, tokens: Seq<TokenView>) -> bool
    decreases tokens.len(),
{
    tokens.len() == 0 || (state.current == tokens[0] && (tokens.len() == 1 || (
    state.advance().result is Ok && reads(state.advance().state, tokens.drop_first()))))
}

/// Passing `n` tokens and then `m` is passing `n + m`.
proof fn lemma_advance_by_add(state: ParserView, n: nat, m: nat)
    ensures
        advance_by(state, n + m) == advance_by(advance_by(state, n), m),
    decreases n,
{
    if n > 0 {
        lemma_advance_by_add(state.advance().state, (n - 1) as nat, m);
    }
}

/// Where the tokens ahead begin with `first` and then `rest`, they begin with
/// `first`; and once the tokens of `first` are passed, each passing succeeds
/// and the tokens ahead begin with `rest`.
pub proof fn lemma_reads_split(state: ParserView, first: Seq<TokenView>, rest: Seq<TokenView>)
    requires
        reads(state, first + rest),
    ensures
        reads(state, first),
        rest.len() > 0 ==> reads(advance_by(state, first.len()), rest),
        rest.len() > 0 && first.len() > 0 ==> advance_by(state, (first.len() - 1) as nat).advance()
            == (Parsed { state: advance_by(state, first.len()), result: Ok::<(), _>(()) }),
    decreases first.len(),
{
    let all = first + rest;
    if first.len() == 1 {
        if rest.len() > 0 {
            assert(all.drop_first() =~= rest);
        }
    } else if first.len() > 1 {
        assert(all.drop_first() =~= first.drop_first() + rest);
        lemma_reads_split(state.advance().state, first.drop_first(), rest);
        if rest.len() > 0 {
            lemma_advance_by_add(state, 1, (first.len() - 2) as nat);
            lemma_advance_by_one(state);
        }
    }
}

/// An expression is written with at least one token.
proof fn lemma_tokens_of_nonempty(tree: Tree, level: nat)
    requires
        tree.is_expression(),
    ensures
        tokens_of(tree, level).len() > 0,
        bare_tokens(tree).len() > 0,
{
}

/// One token passed.
proof fn lemma_advance_by_one(state: ParserView)
    ensures
        advance_by(state, 1) == state.advance().state,
{
    reveal_with_fuel(advance_by, 2);
}

/// The parser with `tree` on top of its stack once the tokens that write the
/// tree for `level` have been passed.
pub open spec fn after(state: ParserView, tree: Tree, level: nat) -> ParserView {
    advance_by(state, tokens_of(tree, level).len()).push(tree)
}

/// Parsing from `state` at the level `precedence` comes to `end`: it goes on
/// from there with the operators behind the first operand, which is on top
/// of the stack of `end`.
#[verifier::opaque]
pub open spec fn comes_to(state: ParserView, precedence: Precedence, end: ParserView) -> bool {
    state.parse_precedence(precedence) == ParserView::finish_precedence(
        end.infix_loop(precedence),
        precedence,
    )
}

/// Parsing from `state` at the level `precedence` gives `tree` and leaves
/// the parser as `end`.
#[verifier::opaque]
pub open spec fn gives(state: ParserView, precedence: Precedence, end: ParserView, tree: Tree) -> bool {
    state.parse_precedence(precedence) == (Parsed { state: end, result: Ok::<Tree, _>(tree) })
}

/// A number starts an expression: its prefix rule gives its value.
proof fn lemma_value_starts(state: ParserView, precedence: Precedence, value: i64)
    requires
        state.current == TokenView::Number(TokenType::Integer, bits_of(value)),
        state.advance().result is Ok,
    ensures
        comes_to(state, precedence, state.advance().state.push(Tree::Value(value))),
{
    reveal(comes_to);
    lemma_signed_of_bits(value);
    lemma_advance_consumes(state);
}

/// A bracket starts an expression: where an expression and the closing
/// bracket follow, its prefix rule gives that expression.
proof fn lemma_bracket_starts(
    state: ParserView,
    precedence: Precedence,
    inner: ParserView,
    tree: Tree,
)
    requires
        state.current.kind() == TokenType::LeftParen,
        state.advance().result is Ok,
        gives(state.advance().state, Precedence::PrecAssignment, inner, tree),
        inner.current.kind() == TokenType::RightParen,
        inner.advance().result is Ok,
    ensures
        comes_to(state, precedence, inner.advance().state.push(tree)),
{
    reveal(comes_to);
    reveal(gives);
    lemma_advance_consumes(state);
    lemma_apply_moves_on(state.advance().state, ParseFunc::Grouping);
}

/// An operator extends an expression: where parsing has come to an operator
/// that binds tightly enough and its right operand follows, parsing comes to
/// the operation on the operand before and the right operand.
proof fn lemma_operator_extends(
    state: ParserView,
    precedence: Precedence,
    at_sign: ParserView,
    op: Operations,
    end: ParserView,
    right: Tree,
)
    requires
        op.is_arithmetic(),
        comes_to(state, precedence, at_sign),
        at_sign.current.kind() == kind_of_op(op),
        precedence.level() <= binding(op),
        at_sign.advance().result is Ok,
        gives(
            at_sign.advance().state.pop(),
            rule_of(kind_of_op(op)).precedence.next(),
            end,
            right,
        ),
    ensures
        comes_to(
            state,
            precedence,
            end.push(Tree::Binary(op, Box::new(at_sign.stack.last()), Box::new(right))),
        ),
{
    reveal(comes_to);
    reveal(gives);
    lemma_advance_consumes(at_sign);
    lemma_apply_moves_on(at_sign.advance().state, ParseFunc::Binary);
}

/// The end of an expression: where parsing has come to a token that binds
/// less tightly than asked, and that is no equals sign where an assignment
/// could stand, it gives the top of the stack.
proof fn lemma_parse_ends(state: ParserView, precedence: Precedence, end: ParserView)
    requires
        comes_to(state, precedence, end),
        rule_of(end.current.kind()).precedence.level() < precedence.level(),
        precedence.level() <= 1 ==> end.current.kind() != TokenType::Equal,
    ensures
        gives(state, precedence, end.pop(), end.stack.last()),
{
    reveal(comes_to);
    reveal(gives);
}

/// The parser with a tree pushed on its stack and taken off again.
proof fn lemma_push_pop(state: ParserView, tree: Tree)
    ensures
        state.push(tree).pop() == state,
        state.push(tree).stack.last() == tree,
{
    assert(state.stack.push(tree).drop_last() =~= state.stack);
}

/// Passing a token does not depend on the top of the stack.
proof fn lemma_advance_under_push(state: ParserView, tree: Tree)
    ensures
        state.push(tree).advance() == (Parsed {
            state: state.advance().state.push(tree),
            result: state.advance().result,
        }),
{
}

/// What the tokens ahead give where they begin with `tokens` and then
/// `follow`: the first of them is ahead, the passing of all of them
/// succeeds, and then `follow` is ahead.
pub proof fn lemma_reads_through(state: ParserView, tokens: Seq<TokenView>, follow: TokenView)
    requires
        tokens.len() > 0,
        reads(state, tokens.push(follow)),
    ensures
        state.current == tokens[0],
        state.advance().result is Ok,
        advance_by(state, tokens.len()).current == follow,
        advance_by(state, 1) == state.advance().state,
{
    assert(tokens.push(follow) =~= tokens + seq![follow]);
    lemma_reads_split(state, tokens, seq![follow]);
    lemma_advance_by_one(state);
}

/// What the tokens ahead give where they begin with `first`, then `middle`,
/// then `rest`: once the tokens of `first` are passed, `middle` is ahead, it
/// can be passed, and then the tokens ahead begin with `rest`.
pub proof fn lemma_reads_middle(
    state: ParserView,
    first: Seq<TokenView>,
    middle: TokenView,
    rest: Seq<TokenView>,
)
    requires
        rest.len() > 0,
        reads(state, first + seq![middle] + rest),
    ensures
        reads(state, first.push(middle)),
        advance_by(state, first.len()).current == middle,
        advance_by(state, first.len()).advance() == (Parsed {
            state: advance_by(state, first.len() + 1),
            result: Ok::<(), _>(()),
        }),
        reads(advance_by(state, first.len() + 1), rest),
{
    assert(first.push(middle) =~= first + seq![middle]);
    lemma_reads_split(state, first + seq![middle], rest);
    assert(first + seq![middle] + rest =~= first + (seq![middle] + rest));
    lemma_reads_split(state, first, seq![middle] + rest);
}

/// Where the tokens of an expression are ahead, followed by a token that
/// does not bind more tightly than the level for which the expression was
/// written, parsing at that level or a looser one passes these tokens and
/// comes to the expression as its first operand.
proof fn lemma_operand(
    state: ParserView,
    tree: Tree,
    limit: nat,
    precedence: Precedence,
    follow: TokenView,
)
    requires
        tree.is_expression(),
        reads(state, tokens_of(tree, limit).push(follow)),
        rule_of(follow.kind()).precedence.level() <= limit,
        precedence.level() <= limit,
    ensures
        comes_to(state, precedence, after(state, tree, limit)),
        after(state, tree, limit).current == follow,
    decreases
            tree,
            (if needs_brackets(tree, limit) {
                1nat
            } else {
                0nat
            }),
{
    let tokens = tokens_of(tree, limit);
    lemma_tokens_of_nonempty(tree, limit);
    lemma_reads_through(state, tokens, follow);
    let s1 = state.advance().state;
    if needs_brackets(tree, limit) {
        let bare = bare_tokens(tree);
        let open = TokenView::Single(TokenType::LeftParen);
        let close = TokenView::Single(TokenType::RightParen);
        let none = Seq::<TokenView>::empty();
        assert(tokens.push(follow) =~= none + seq![open] + (bare + seq![close, follow]));
        lemma_reads_middle(state, none, open, bare + seq![close, follow]);
        assert(bare + seq![close, follow] =~= bare + seq![close] + seq![follow]);
        lemma_reads_middle(s1, bare, close, seq![follow]);
        lemma_operand(s1, tree, 1, Precedence::PrecAssignment, close);
        lemma_parse_ends(s1, Precedence::PrecAssignment, after(s1, tree, 1));
        let s2 = advance_by(s1, bare.len());
        lemma_push_pop(s2, tree);
        lemma_bracket_starts(state, precedence, s2, tree);
        lemma_advance_by_add(state, 1, bare.len() + 1);
    } else {
        match tree {
            Tree::Value(value) => {
                lemma_value_starts(state, precedence, value);
            },
            Tree::Binary(op, left, right) => {
                let p = binding(op);
                let sign = TokenView::Single(kind_of_op(op));
                let left_tokens = tokens_of(*left, p);
                let right_tokens = tokens_of(*right, p + 1);
                lemma_tokens_of_nonempty(*right, p + 1);
                assert(tokens.push(follow) =~= left_tokens + seq![sign] + right_tokens.push(
                    follow,
                ));
                lemma_reads_middle(state, left_tokens, sign, right_tokens.push(follow));
                lemma_operand(state, *left, p, precedence, sign);
                let s2 = advance_by(state, left_tokens.len());
                let s3 = advance_by(state, left_tokens.len() + 1);
                lemma_advance_under_push(s2, *left);
                lemma_push_pop(s3, *left);
                lemma_push_pop(s2, *left);
                let above = rule_of(kind_of_op(op)).precedence.next();
                lemma_operand(s3, *right, p + 1, above, follow);
                lemma_parse_ends(s3, above, after(s3, *right, p + 1));
                let s4 = advance_by(s3, right_tokens.len());
                lemma_push_pop(s4, *right);
                lemma_operator_extends(state, precedence, s2.push(*left), op, s4, *right);
                lemma_advance_by_add(state, left_tokens.len() + 1, right_tokens.len());
            },
            _ => {},
        }
    }
}

/// The parser reads back what was written. Where the tokens ahead are those
/// of an expression, written for the level `precedence`, and then a token
/// that binds less tightly (and that is no equals sign where an assignment
/// could stand), parsing at that level gives the expression, passes exactly
/// its tokens and leaves the stack as it was. So an operator that binds more
/// tightly takes its operands first, operators of one level group to the
/// left, and brackets override both.
pub proof fn lemma_parse_inverts_tokens(
    state: ParserView,
    tree: Tree,
    precedence: Precedence,
    stop: TokenView,
)
    requires
        tree.is_expression(),
        reads(state, tokens_of(tree, precedence.level() as nat).push(stop)),
        rule_of(stop.kind()).precedence.level() < precedence.level(),
        precedence.level() <= 1 ==> stop.kind() != TokenType::Equal,
    ensures
        state.parse_precedence(precedence) == (Parsed {
            state: advance_by(state, tokens_of(tree, precedence.level() as nat).len()),
            result: Ok::<Tree, _>(tree),
        }),
        advance_by(state, tokens_of(tree, precedence.level() as nat).len()).current == stop,
{
    let level = precedence.level() as nat;
    lemma_operand(state, tree, level, precedence, stop);
    lemma_parse_ends(state, precedence, after(state, tree, level));
    lemma_push_pop(advance_by(state, tokens_of(tree, level).len()), tree);
    reveal(gives);
}

/// An expression is written with at least one token, and the first is a
/// number or an opening bracket.
pub proof fn lemma_first_token(tree: Tree, level: nat)
    requires
        tree.is_expression(),
    ensures
        tokens_of(tree, level).len() > 0,
        tokens_of(tree, level)[0].kind() == TokenType::Integer || tokens_of(tree, level)[0].kind()
            == TokenType::LeftParen,
    decreases tree,
{
    if !needs_brackets(tree, level) {
        if let Tree::Binary(op, left, right) = tree {
            lemma_first_token(*left, binding(op));
        }
    }
}

/// An expression and its semicolon are read back: where the tokens ahead
/// are those of an expression, a semicolon and one more token, they give the
/// expression, and the expression and the semicolon are passed.
proof fn lemma_expression_statement_inverts_tokens(
    state: ParserView,
    tree: Tree,
    next: TokenView,
)
    requires
        tree.is_expression(),
        reads(
            state,
            tokens_of(tree, 1) + seq![TokenView::Single(TokenType::Semicolon), next],
        ),
    ensures
        state.expression_statement() == (Parsed {
            state: advance_by(state, tokens_of(tree, 1).len() + 1),
            result: Ok::<Tree, _>(tree),
        }),
{
    let tokens = tokens_of(tree, 1);
    let end = TokenView::Single(TokenType::Semicolon);
    lemma_first_token(tree, 1);
    assert(tokens + seq![end, next] =~= tokens + seq![end] + seq![next]);
    lemma_reads_middle(state, tokens, end, seq![next]);
    lemma_reads_through(state, tokens, end);
    lemma_parse_inverts_tokens(state, tree, Precedence::PrecAssignment, end);
}

/// An expression statement is read back: where the tokens ahead are those of
/// an expression, a semicolon and one more token, parsing a statement gives
/// the expression and passes the expression and the semicolon.
pub proof fn lemma_statement_inverts_tokens(state: ParserView, tree: Tree, next: TokenView)
    requires
        tree.is_expression(),
        reads(
            state,
            tokens_of(tree, 1) + seq![TokenView::Single(TokenType::Semicolon), next],
        ),
    ensures
        state.statement() == (Parsed {
            state: advance_by(state, tokens_of(tree, 1).len() + 1),
            result: Ok::<Tree, _>(tree),
        }),
{
    let tokens = tokens_of(tree, 1);
    let end = TokenView::Single(TokenType::Semicolon);
    lemma_first_token(tree, 1);
    assert((tokens + seq![end]).push(next) =~= tokens + seq![end, next]);
    lemma_reads_through(state, tokens + seq![end], next);
    lemma_expression_statement_inverts_tokens(state, tree, next);
}

/// A print statement is read back: where the tokens ahead are the keyword,
/// those of an expression, a semicolon and one more token, parsing a
/// statement gives the print of the expression and passes all but the last.
pub proof fn lemma_print_statement_inverts_tokens(state: ParserView, tree: Tree, next: TokenView)
    requires
        tree.is_expression(),
        reads(
            state,
            seq![TokenView::Single(TokenType::Print)] + tokens_of(tree, 1) + seq![
                TokenView::Single(TokenType::Semicolon),
                next,
            ],
        ),
    ensures
        state.statement() == (Parsed {
            state: advance_by(state, tokens_of(tree, 1).len() + 2),
            result: Ok::<Tree, _>(Tree::Print(Operations::OpNone, Box::new(tree))),
        }),
{
    let tokens = tokens_of(tree, 1);
    let keyword = TokenView::Single(TokenType::Print);
    let end = TokenView::Single(TokenType::Semicolon);
    let none = Seq::<TokenView>::empty();
    assert(seq![keyword] + tokens + seq![end, next] =~= none + seq![keyword] + (tokens + seq![
        end,
        next,
    ]));
    lemma_reads_middle(state, none, keyword, tokens + seq![end, next]);
    lemma_expression_statement_inverts_tokens(advance_by(state, 1), tree, next);
    lemma_advance_by_add(state, 1, tokens.len() + 1);
}

} // verus!
