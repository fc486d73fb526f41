//! The parser: precedence climbing over the tokens that it pulls from the
//! scanner, one token of look-ahead.

use vstd::prelude::*;
use crate::common::errors::error::{plain_result_view, CompilerErrorKind, ErrorView};
use crate::parser::ast::block_node::BlockNode;
use crate::parser::ast::node::{tree_of, trees_of, AstNode, Tree};
use crate::parser::ast::print_node::PrintAstNode;
use crate::parser::operations::Operations;
use crate::parser::parse_func::{apply, ParseFunc};
use crate::parser::precedence::{rule_of, Precedence};
use crate::scanner::scanner::{
    lemma_scan_token_at_end,
    lemma_scan_token_progress,
    scan_token,
    Cursor,
    Scanner,
    ScannerView,
};
use crate::scanner::tokens::{signed_of, Token, TokenType, TokenView};

verus! {

/// What a parser is: the text and the cursor of its scanner, its stack of
/// left operands, the token just passed and the token ahead, and the half of
/// a split token that waits to become the token ahead.
pub struct ParserView {
    pub src: Seq<char>,
    pub cursor: Cursor,
    pub stack: Seq<Tree>,
    pub previous: TokenView,
    pub current: TokenView,
    pub requeued: Option<TokenView>,
}

/// One step of parsing: the parser afterwards, and what the step gave.
pub struct Parsed<T> {
    pub state: ParserView,
    pub result: Result<T, ErrorView>,
}

/// The message for a token that cannot start an expression.
pub open spec fn expected_expression_message() -> Seq<char> {
    "Expected expression."@
}

/// The message for a token that binds as an operator and is none.
pub open spec fn expected_operator_message() -> Seq<char> {
    "Expected operator."@
}

/// The message for an assignment to what cannot be assigned to.
pub open spec fn invalid_assignment_message() -> Seq<char> {
    "Invalid assignment target."@
}

/// The message for a statement without its semicolon.
pub open spec fn expected_semicolon_message() -> Seq<char> {
    "Expected ';' after expression."@
}

/// The message for a group without its closing bracket.
pub open spec fn expected_paren_message() -> Seq<char> {
    "Expect ')' after expression."@
}

/// The message for a block without its closing brace.
pub open spec fn expected_brace_message() -> Seq<char> {
    "Expect '}' after block"@
}

/// The operator that a token kind writes.
pub open spec fn op_of(kind: TokenType) -> Operations {
    match kind {
        TokenType::Plus => Operations::OpIntAdd,
        TokenType::Minus => Operations::OpIntMinus,
        TokenType::Star => Operations::OpIntMul,
        TokenType::Slash => Operations::OpIntDiv,
        _ => Operations::OpNone,
    }
}

/// Whether a token kind is one of the four arithmetic operators.
pub open spec fn is_arithmetic(kind: TokenType) -> bool {
    kind == TokenType::Plus || kind == TokenType::Minus || kind == TokenType::Star || kind
        == TokenType::Slash
}

impl ParserView {
    /// The parser over a scanner, before its first token was read.
    pub open spec fn over(scanner: ScannerView) -> ParserView {
        ParserView {
            src: scanner.src,
            cursor: scanner.cursor,
            stack: Seq::empty(),
            previous: TokenView::NoToken,
            current: TokenView::NoToken,
            requeued: None,
        }
    }

    /// A bound on the tokens still ahead: it falls with every token that is
    /// passed, and parsing never raises it.
    pub open spec fn remaining(self) -> nat {
        let unread: nat = if self.cursor.pos <= self.src.len() {
            (self.src.len() - self.cursor.pos) as nat
        } else {
            0
        };
        let ahead: nat = if self.current.kind() != TokenType::Eof {
            1
        } else {
            0
        };
        let waiting: nat = if self.requeued is Some {
            2
        } else {
            0
        };
        2 * unread + ahead + waiting
    }

    /// The parse error with `message` at the scanner's position.
    pub open spec fn error(self, message: Seq<char>) -> ErrorView {
        ErrorView::CompilerError(self.cursor.line, self.cursor.col, message)
    }

    /// Passing one token: the token ahead becomes the previous one, and the
    /// next token ahead is the waiting half of a split token, if there is
    /// one, or else is scanned.
    pub open spec fn advance(self) -> Parsed<()> {
        match self.requeued {
            Some(half) => Parsed {
                state: ParserView {
                    previous: self.current,
                    current: half,
                    requeued: None,
                    ..self
                },
                result: Ok(()),
            },
            None => {
                let scanned = scan_token(self.src, self.cursor);
                match scanned.result {
                    Ok(token) => Parsed {
                        state: ParserView {
                            previous: self.current,
                            current: token,
                            cursor: scanned.cursor,
                            ..self
                        },
                        result: Ok(()),
                    },
                    Err(e) => Parsed {
                        state: ParserView {
                            previous: self.current,
                            cursor: scanned.cursor,
                            ..self
                        },
                        result: Err(e),
                    },
                }
            },
        }
    }

    /// Whether the token ahead has the kind `kind`.
    pub open spec fn check(self, kind: TokenType) -> bool {
        self.current.kind() == kind
    }

    /// Passing a token of the kind `kind`, or the parse error with `message`
    /// if another token is ahead.
    pub open spec fn consume(self, kind: TokenType, message: Seq<char>) -> Parsed<()> {
        if self.check(kind) {
            self.advance()
        } else {
            Parsed { state: self, result: Err(self.error(message)) }
        }
    }

    /// Passing a token of the kind `kind` if one is ahead, and saying so.
    pub open spec fn t_match(self, kind: TokenType) -> Parsed<bool> {
        if !self.check(kind) {
            Parsed { state: self, result: Ok(false) }
        } else {
            let passed = self.advance();
            Parsed {
                state: passed.state,
                result: match passed.result {
                    Ok(_) => Ok(true),
                    Err(e) => Err(e),
                },
            }
        }
    }

    /// The parser with `tree` on top of its stack.
    pub open spec fn push(self, tree: Tree) -> ParserView {
        ParserView { stack: self.stack.push(tree), ..self }
    }

    /// The parser without the top of its stack.
    pub open spec fn pop(self) -> ParserView {
        ParserView { stack: self.stack.drop_last(), ..self }
    }

    /// The value of the integer token just passed.
    pub open spec fn int_number(self) -> Parsed<Tree> {
        Parsed {
            state: self,
            result: Ok(
                Tree::Value(
                    match self.previous {
                        TokenView::Number(_, bits) => signed_of(bits),
                        _ => 0,
                    },
                ),
            ),
        }
    }

    /// The rule `rule` at this place.
    pub open spec fn apply(self, rule: ParseFunc) -> Parsed<Tree>
        decreases self.remaining(), 3nat,
    {
        match rule {
            ParseFunc::Grouping => self.grouping(),
            ParseFunc::Binary => self.binary(),
            ParseFunc::IntNumber => self.int_number(),
        }
    }

    /// A group, whose opening bracket was just passed: an expression and the
    /// closing bracket.
    pub open spec fn grouping(self) -> Parsed<Tree>
        decreases self.remaining(), 2nat,
    {
        let inner = self.expression();
        match inner.result {
            Ok(tree) => {
                let closed = inner.state.consume(TokenType::RightParen, expected_paren_message());
                Parsed {
                    state: closed.state,
                    result: match closed.result {
                        Ok(_) => Ok(tree),
                        Err(e) => Err(e),
                    },
                }
            },
            Err(e) => Parsed { state: inner.state, result: Err(e) },
        }
    }

    /// A binary operation, whose operator was just passed and whose left
    /// operand is on top of the stack: the right operand is what binds
    /// tighter than the operator, so that equal operators group to the left.
    pub open spec fn binary(self) -> Parsed<Tree>
        decreases self.remaining(), 2nat,
    {
        let kind = self.previous.kind();
        let left = self.stack.last();
        let right = self.pop().parse_precedence(rule_of(kind).precedence.next());
        Parsed {
            state: right.state,
            result: match right.result {
                Ok(tree) => Ok(Tree::Binary(op_of(kind), Box::new(left), Box::new(tree))),
                Err(e) => Err(e),
            },
        }
    }

    /// An expression.
    pub open spec fn expression(self) -> Parsed<Tree>
        decreases self.remaining(), 1nat,
    {
        self.parse_precedence(Precedence::PrecAssignment)
    }

    /// An expression of operators that bind at least as tightly as
    /// `precedence`: a prefix rule gives the first operand, then infix rules
    /// extend it while the token ahead binds tightly enough. The comparison
    /// of the bounds makes the definition well founded; it always holds
    /// (`lemma_parse_precedence_moves_on`).
    pub open spec fn parse_precedence(self, precedence: Precedence) -> Parsed<Tree>
        decreases self.remaining(), 0nat,
    {
        let passed = self.advance();
        match passed.result {
            Err(e) => Parsed { state: passed.state, result: Err(e) },
            Ok(_) => match rule_of(passed.state.previous.kind()).prefix {
                None => Parsed {
                    state: passed.state,
                    result: Err(passed.state.error(expected_expression_message())),
                },
                Some(rule) => {
                    proof {
                        lemma_advance_consumes(self);
                    }
                    let first = passed.state.apply(rule);
                    match first.result {
                        Err(e) => Parsed { state: first.state, result: Err(e) },
                        Ok(tree) => {
                            let started = first.state.push(tree);
                            let looped = if started.remaining() < self.remaining() {
                                started.infix_loop(precedence)
                            } else {
                                Parsed { state: started, result: Ok(()) }
                            };
                            ParserView::finish_precedence(looped, precedence)
                        },
                    }
                },
            },
        }
    }

    /// The operators behind a first operand, which is on top of the stack:
    /// while the token ahead binds at least as tightly as `precedence`, it is
    /// passed and its infix rule replaces the top of the stack. A token that
    /// binds so and has no infix rule is an error. The comparison of the
    /// bounds makes the definition well founded; it always holds
    /// (`lemma_parse_precedence_moves_on`).
    pub open spec fn infix_loop(self, precedence: Precedence) -> Parsed<()>
        decreases self.remaining(), 0nat,
    {
        if precedence.level() <= rule_of(self.current.kind()).precedence.level() {
            let passed = self.advance();
            match passed.result {
                Err(e) => Parsed { state: passed.state, result: Err(e) },
                Ok(_) => match rule_of(passed.state.previous.kind()).infix {
                    None => Parsed {
                        state: passed.state,
                        result: Err(passed.state.error(expected_operator_message())),
                    },
                    Some(rule) => {
                        proof {
                            lemma_advance_consumes(self);
                        }
                        let extended = passed.state.apply(rule);
                        match extended.result {
                            Err(e) => Parsed { state: extended.state, result: Err(e) },
                            Ok(tree) => {
                                let next = extended.state.push(tree);
                                if next.remaining() < self.remaining() {
                                    next.infix_loop(precedence)
                                } else {
                                    Parsed { state: next, result: Ok(()) }
                                }
                            },
                        }
                    },
                },
            }
        } else {
            Parsed { state: self, result: Ok(()) }
        }
    }

    /// The end of `parse_precedence`: where an assignment could stand, an
    /// equals sign ahead is an error; else the expression is the top of the
    /// stack, which is taken off.
    pub open spec fn finish_precedence(looped: Parsed<()>, precedence: Precedence) -> Parsed<Tree> {
        match looped.result {
            Err(e) => Parsed { state: looped.state, result: Err(e) },
            Ok(_) => if precedence.level() <= Precedence::PrecAssignment.level() {
                let assigned = looped.state.t_match(TokenType::Equal);
                match assigned.result {
                    Err(e) => Parsed { state: assigned.state, result: Err(e) },
                    Ok(true) => Parsed {
                        state: assigned.state,
                        result: Err(assigned.state.error(invalid_assignment_message())),
                    },
                    Ok(false) => Parsed {
                        state: assigned.state.pop(),
                        result: Ok(assigned.state.stack.last()),
                    },
                }
            } else {
                Parsed { state: looped.state.pop(), result: Ok(looped.state.stack.last()) }
            },
        }
    }

    /// An expression and its semicolon.
    pub open spec fn expression_statement(self) -> Parsed<Tree> {
        let inner = self.expression();
        match inner.result {
            Ok(tree) => {
                let ended = inner.state.consume(TokenType::Semicolon, expected_semicolon_message());
                Parsed {
                    state: ended.state,
                    result: match ended.result {
                        Ok(_) => Ok(tree),
                        Err(e) => Err(e),
                    },
                }
            },
            Err(e) => Parsed { state: inner.state, result: Err(e) },
        }
    }

    /// The rest of a print statement, whose keyword was just passed.
    pub open spec fn print_statement(self) -> Parsed<Tree> {
        let inner = self.expression_statement();
        Parsed {
            state: inner.state,
            result: match inner.result {
                Ok(tree) => Ok(Tree::Print(Operations::OpNone, Box::new(tree))),
                Err(e) => Err(e),
            },
        }
    }

    /// A statement: a print statement or an expression statement.
    pub open spec fn statement(self) -> Parsed<Tree> {
        let keyword = self.t_match(TokenType::Print);
        match keyword.result {
            Err(e) => Parsed { state: keyword.state, result: Err(e) },
            Ok(true) => keyword.state.print_statement(),
            Ok(false) => keyword.state.expression_statement(),
        }
    }

    /// The statements of a block behind those of `sofar`, up to a closing
    /// brace, which stays ahead, or to the end of the text, which is passed.
    /// The comparison of the bounds makes the definition well founded; it
    /// always holds (`lemma_statement_moves_on`).
    pub open spec fn statements(self, sofar: Seq<Tree>) -> Parsed<Seq<Tree>>
        decreases self.remaining(),
    {
        if self.check(TokenType::RightBrace) {
            Parsed { state: self, result: Ok(sofar) }
        } else {
            let ended = self.t_match(TokenType::Eof);
            match ended.result {
                Err(e) => Parsed { state: ended.state, result: Err(e) },
                Ok(true) => Parsed { state: ended.state, result: Ok(sofar) },
                Ok(false) => {
                    let one = self.statement();
                    match one.result {
                        Err(e) => Parsed { state: one.state, result: Err(e) },
                        Ok(tree) => if one.state.remaining() < self.remaining() {
                            one.state.statements(sofar.push(tree))
                        } else {
                            Parsed { state: one.state, result: Ok(sofar.push(tree)) }
                        },
                    }
                },
            }
        }
    }

    /// The end of a block: the closing brace, which is owed even where the
    /// statements ran to the end of the text.
    pub open spec fn finish_block(body: Parsed<Seq<Tree>>) -> Parsed<Tree> {
        match body.result {
            Err(e) => Parsed { state: body.state, result: Err(e) },
            Ok(trees) => {
                let closed = body.state.consume(TokenType::RightBrace, expected_brace_message());
                Parsed {
                    state: closed.state,
                    result: match closed.result {
                        Ok(_) => Ok(Tree::Block(trees)),
                        Err(e) => Err(e),
                    },
                }
            },
        }
    }

    /// A block: an opening brace or none, statements, and the closing brace.
    pub open spec fn block(self) -> Parsed<Tree> {
        let open = self.t_match(TokenType::LeftBrace);
        match open.result {
            Err(e) => Parsed { state: open.state, result: Err(e) },
            Ok(_) => ParserView::finish_block(open.state.statements(Seq::empty())),
        }
    }
}

/// Passing a token never raises the bound on the tokens ahead, and lowers it
/// where the step succeeds and the token was not `Eof`.
pub proof fn lemma_advance_consumes(state: ParserView)
    ensures
        state.advance().state.remaining() <= state.remaining(),
        state.current.kind() != TokenType::Eof && state.advance().result is Ok
            ==> state.advance().state.remaining() < state.remaining(),
        state.advance().state.stack == state.stack,
        state.advance().state.src == state.src,
{
    if state.requeued is None {
        if state.cursor.pos <= state.src.len() {
            lemma_scan_token_progress(state.src, state.cursor);
        } else {
            lemma_scan_token_at_end(state.src, state.cursor);
        }
    }
}

/// What a parsing step may do to the parser: it keeps the text and never
/// raises the bound on the tokens ahead.
pub open spec fn moves_on(before: ParserView, after: ParserView) -> bool {
    after.src == before.src && after.remaining() <= before.remaining()
}

/// A rule keeps the text and does not raise the bound on the tokens ahead;
/// where it succeeds, the binary rule has taken its left operand off the
/// stack and the other rules have left the stack as it was.
pub proof fn lemma_apply_moves_on(state: ParserView, rule: ParseFunc)
    ensures
        moves_on(state, state.apply(rule).state),
        state.apply(rule).result is Ok ==> state.apply(rule).state.stack == if rule
            == ParseFunc::Binary {
            state.stack.drop_last()
        } else {
            state.stack
        },
    decreases state.remaining(), 3nat,
{
    match rule {
        ParseFunc::Grouping => {
            let inner = state.expression();
            lemma_parse_precedence_moves_on(state, Precedence::PrecAssignment);
            lemma_advance_consumes(inner.state);
        },
        ParseFunc::Binary => {
            lemma_parse_precedence_moves_on(
                state.pop(),
                rule_of(state.previous.kind()).precedence.next(),
            );
        },
        ParseFunc::IntNumber => {},
    }
}

/// The operators behind a first operand keep the text and do not raise the
/// bound on the tokens ahead; where they succeed, only the top of the stack
/// has changed.
proof fn lemma_infix_loop_moves_on(state: ParserView, precedence: Precedence)
    ensures
        moves_on(state, state.infix_loop(precedence).state),
        state.infix_loop(precedence).result is Ok ==> state.infix_loop(precedence).state.stack.len()
            > 0 || state.stack.len() == 0,
        state.infix_loop(precedence).result is Ok ==> state.infix_loop(
            precedence,
        ).state.stack.drop_last() == state.stack.drop_last(),
    decreases state.remaining(), 0nat,
{
    if precedence.level() <= rule_of(state.current.kind()).precedence.level() {
        let passed = state.advance();
        lemma_advance_consumes(state);
        if passed.result is Ok {
            match rule_of(passed.state.previous.kind()).infix {
                None => {},
                Some(rule) => {
                    lemma_apply_moves_on(passed.state, rule);
                    let extended = passed.state.apply(rule);
                    if let Ok(tree) = extended.result {
                        let next = extended.state.push(tree);
                        lemma_infix_loop_moves_on(next, precedence);
                        if state.stack.len() > 0 {
                            assert(passed.state.stack.drop_last().push(tree).drop_last()
                                =~= state.stack.drop_last());
                        }
                    }
                },
            }
        }
    }
}

/// The end of `parse_precedence` keeps the text and does not raise the bound
/// on the tokens ahead; where it succeeds it takes the top off the stack.
proof fn lemma_finish_precedence_moves_on(looped: Parsed<()>, precedence: Precedence)
    ensures
        moves_on(looped.state, ParserView::finish_precedence(looped, precedence).state),
        ParserView::finish_precedence(looped, precedence).result is Ok
            ==> ParserView::finish_precedence(looped, precedence).state.stack
            == looped.state.stack.drop_last(),
{
    lemma_advance_consumes(looped.state);
}

/// Parsing an expression keeps the text and does not raise the bound on the
/// tokens ahead; where it succeeds it lowers the bound and leaves the stack of
/// left operands as it was. So the tests of the bound in `parse_precedence`,
/// `infix_loop` and `statements` never fail.
pub proof fn lemma_parse_precedence_moves_on(state: ParserView, precedence: Precedence)
    ensures
        moves_on(state, state.parse_precedence(precedence).state),
        state.parse_precedence(precedence).result is Ok ==> state.parse_precedence(
            precedence,
        ).state.remaining() < state.remaining() && state.parse_precedence(precedence).state.stack
            == state.stack,
    decreases state.remaining(), 0nat,
{
    let passed = state.advance();
    lemma_advance_consumes(state);
    if passed.result is Ok {
        match rule_of(passed.state.previous.kind()).prefix {
            None => {},
            Some(rule) => {
                lemma_apply_moves_on(passed.state, rule);
                let first = passed.state.apply(rule);
                if let Ok(tree) = first.result {
                    let started = first.state.push(tree);
                    lemma_infix_loop_moves_on(started, precedence);
                    let looped = started.infix_loop(precedence);
                    lemma_finish_precedence_moves_on(looped, precedence);
                    assert(state.parse_precedence(precedence) == ParserView::finish_precedence(
                        looped,
                        precedence,
                    ));
                }
            },
        }
    }
}

/// Parsing a statement keeps the text and does not raise the bound on the
/// tokens ahead; where it succeeds it lowers the bound.
pub proof fn lemma_statement_moves_on(state: ParserView)
    ensures
        moves_on(state, state.statement().state),
        state.statement().result is Ok ==> state.statement().state.remaining()
            < state.remaining(),
{
    lemma_advance_consumes(state);
    let keyword = state.t_match(TokenType::Print);
    if keyword.result is Ok {
        lemma_parse_precedence_moves_on(keyword.state, Precedence::PrecAssignment);
        lemma_advance_consumes(keyword.state.expression().state);
    }
}

/// The trees of a sequence of nodes with one more node are the trees of the
/// sequence with the tree of the node.
pub proof fn lemma_trees_of_push(nodes: Seq<Box<AstNode>>, node: Box<AstNode>)
    ensures
        trees_of(nodes.push(node)) == trees_of(nodes).push(tree_of(*node)),
{
    assert(nodes.push(node).drop_last() =~= nodes);
}

/// The trees of a sequence of nodes are as many as the nodes, each the tree
/// of its node.
pub proof fn lemma_trees_of_index(nodes: Seq<Box<AstNode>>)
    ensures
        trees_of(nodes).len() == nodes.len(),
        forall|i: int| 0 <= i < nodes.len() ==> trees_of(nodes)[i] == tree_of(*#[trigger] nodes[i]),
    decreases nodes.len(),
{
    if nodes.len() > 0 {
        lemma_trees_of_index(nodes.drop_last());
        assert forall|i: int| 0 <= i < nodes.len() implies trees_of(nodes)[i] == tree_of(
            *#[trigger] nodes[i],
        ) by {
            if i < nodes.len() - 1 {
                assert(nodes.drop_last()[i] == nodes[i]);
            }
        }
    }
}

/// The content of what a parsing function returned for a tree.
pub open spec fn tree_result_view(r: Result<Box<AstNode>, CompilerErrorKind>) -> Result<
    Tree,
    ErrorView,
> {
    match r {
        Ok(node) => Ok(node@),
        Err(e) => Err(e@),
    }
}

/// A parser over a scanner.
pub struct Parser<'a> {
    scanner: &'a mut Scanner,
    left_hand_stack: Vec<Box<AstNode>>,
    /// The look-ahead buffer for the second half of a token that was split in
    /// two, such as the second `>` of `>>`.
    requeued: Option<Token>,
    previous: Token,
    current: Token,
}

impl<'a> View for Parser<'a> {
    type V = ParserView;

    closed spec fn view(&self) -> ParserView {
        ParserView {
            src: self.scanner@.src,
            cursor: self.scanner@.cursor,
            stack: trees_of(self.left_hand_stack@),
            previous: self.previous@,
            current: self.current@,
            requeued: match self.requeued {
                Some(half) => Some(half@),
                None => None,
            },
        }
    }
}

impl<'a> Parser<'a> {
    /// The scanner is well formed and the payload of every token held fits
    /// its kind.
    pub closed spec fn wf(&self) -> bool {
        &&& self.scanner.wf()
        &&& self.previous@.well_kinded()
        &&& self.current@.well_kinded()
        &&& self.requeued matches Some(half) ==> half@.well_kinded()
    }

    /// A parser that has read the first token of the scanner's text, or the
    /// error of that first scan.
    pub fn new(scanner: &'a mut Scanner) -> (r: Result<Parser<'a>, CompilerErrorKind>)
        requires
            old(scanner).wf(),
        ensures
            match r {
                Ok(parser) => parser.wf() && ParserView::over(old(scanner)@).advance() == (Parsed {
                    state: parser@,
                    result: Ok::<(), ErrorView>(()),
                }),
                Err(e) => ParserView::over(old(scanner)@).advance().result == Err::<(), ErrorView>(
                    e@,
                ),
            },
    {
        proof {
            scanner.lemma_cursor_tracks();
            lemma_scan_token_progress(scanner@.src, scanner@.cursor);
        }
        match scanner.scan() {
            Ok(first) => {
                let parser = Self {
                    scanner,
                    left_hand_stack: Vec::new(),
                    requeued: None,
                    previous: Token::NoToken,
                    current: first,
                };
                Ok(parser)
            },
            Err(e) => Err(e),
        }
    }

    /// The token just passed.
    pub fn get_previous(&self) -> (token: &Token)
        ensures
            token@ == self@.previous,
    {
        &self.previous
    }

    /// The token ahead.
    pub fn get_current(&self) -> (token: &Token)
        ensures
            token@ == self@.current,
    {
        &self.current
    }

    /// Puts a tree on top of the stack of left operands.
    pub fn push_ast(&mut self, ast: Box<AstNode>)
        requires
            old(self).wf(),
        ensures
            final(self).wf(),
            final(self)@ == old(self)@.push(ast@),
    {
        proof {
            lemma_trees_of_push(self.left_hand_stack@, ast);
        }
        self.left_hand_stack.push(ast);
    }

    /// Takes the top of the stack of left operands.
    pub fn pop_ast(&mut self) -> (ast: Box<AstNode>)
        requires
            old(self).wf(),
            old(self)@.stack.len() > 0,
        ensures
            final(self).wf(),
            final(self)@ == old(self)@.pop(),
            ast@ == old(self)@.stack.last(),
    {
        proof {
            let nodes = self.left_hand_stack@;
            lemma_trees_of_index(nodes);
            assert(trees_of(nodes).drop_last() =~= trees_of(nodes.drop_last()));
        }
        match self.left_hand_stack.pop() {
            Some(ast) => ast,
            None => Box::new(AstNode::Block(BlockNode::new(Vec::new()))),
        }
    }

    /// The line and the column of the scanner.
    fn get_position(&self) -> (position: (usize, usize))
        ensures
            position.0 == self@.cursor.line,
            position.1 == self@.cursor.col,
    {
        self.scanner.get_position()
    }

    /// The parse error with `message` at the scanner's position.
    fn error(&self, message: &'static str) -> (e: CompilerErrorKind)
        ensures
            e@ == self@.error(message@),
    {
        let (line, column) = self.get_position();
        CompilerErrorKind::CompilerError(line, column, message.to_owned())
    }

    /// Passes one token.
    fn advance(&mut self) -> (r: Result<(), CompilerErrorKind>)
        requires
            old(self).wf(),
        ensures
            final(self).wf(),
            old(self)@.advance() == (Parsed { state: final(self)@, result: plain_result_view(r) }),
    {
        proof {
            self.scanner.lemma_cursor_tracks();
            lemma_scan_token_progress(self@.src, self@.cursor);
        }
        self.previous = self.current.clone();
        match &self.requeued {
            Some(half) => {
                self.current = half.clone();
                self.requeued = None;
                Ok(())
            },
            None => {
                match self.scanner.scan() {
                    Ok(token) => {
                        self.current = token;
                        Ok(())
                    },
                    Err(e) => Err(e),
                }
            },
        }
    }

    /// Whether the token ahead has the kind `token_type`.
    fn check(&self, token_type: TokenType) -> (b: bool)
        ensures
            b == self@.check(token_type),
    {
        self.current.get_token_type() == token_type
    }

    /// If the token ahead is a double arrow (`<<` or `>>`), splits it: its
    /// first half stays ahead as a single arrow and its second half waits to
    /// be the next token. Says whether it did so.
    pub fn split_current(&mut self) -> (split: bool)
        requires
            old(self).wf(),
        ensures
            final(self).wf(),
            split == (old(self)@.requeued is None && (old(self)@.current.kind()
                == TokenType::RightArrow || old(self)@.current.kind() == TokenType::LeftArrow)),
            final(self)@ == if split {
                let half = if old(self)@.current.kind() == TokenType::RightArrow {
                    TokenView::Single(TokenType::Greater)
                } else {
                    TokenView::Single(TokenType::Less)
                };
                ParserView { current: half, requeued: Some(half), ..old(self)@ }
            } else {
                old(self)@
            },
    {
        if self.requeued.is_some() {
            return false;
        }
        let kind = self.current.get_token_type();
        if kind == TokenType::RightArrow {
            self.current = Token::single_token(TokenType::Greater);
            self.requeued = Some(Token::single_token(TokenType::Greater));
            true
        } else if kind == TokenType::LeftArrow {
            self.current = Token::single_token(TokenType::Less);
            self.requeued = Some(Token::single_token(TokenType::Less));
            true
        } else {
            false
        }
    }

    /// Passes a token of the kind `token_type`; another token ahead is the
    /// parse error with the message `msg`.
    pub fn consume(&mut self, token_type: TokenType, msg: &'static str) -> (r: Result<
        (),
        CompilerErrorKind,
    >)
        requires
            old(self).wf(),
        ensures
            final(self).wf(),
            old(self)@.consume(token_type, msg@) == (Parsed {
                state: final(self)@,
                result: plain_result_view(r),
            }),
    {
        if self.check(token_type) {
            return self.advance();
        }
        Err(self.error(msg))
    }

    /// Passes a token of the kind `token_type` if one is ahead, and says so.
    fn t_match(&mut self, token_type: TokenType) -> (r: Result<bool, CompilerErrorKind>)
        requires
            old(self).wf(),
        ensures
            final(self).wf(),
            old(self)@.t_match(token_type) == (Parsed {
                state: final(self)@,
                result: plain_result_view(r),
            }),
    {
        if !self.check(token_type) {
            return Ok(false);
        }
        match self.advance() {
            Ok(_) => Ok(true),
            Err(e) => Err(e),
        }
    }

    /// Parses an expression of operators that bind at least as tightly as
    /// `precedence`. On success the stack of left operands is as before.
    pub fn parse_precedence(&mut self, precedence: Precedence) -> (r: Result<
        Box<AstNode>,
        CompilerErrorKind,
    >)
        requires
            old(self).wf(),
        ensures
            final(self).wf(),
            old(self)@.parse_precedence(precedence) == (Parsed {
                state: final(self)@,
                result: tree_result_view(r),
            }),
            final(self)@.remaining() <= old(self)@.remaining(),
            r is Ok ==> final(self)@.remaining() < old(self)@.remaining() && final(self)@.stack
                == old(self)@.stack,
        decreases old(self)@.remaining(), 0nat,
    {
        let ghost goal = self@.parse_precedence(precedence);
        let ghost start = self@;
        proof {
            lemma_advance_consumes(start);
        }
        match self.advance() {
            Ok(_) => {},
            Err(e) => {
                return Err(e);
            },
        }
        let can_assign = precedence.value() <= Precedence::PrecAssignment.value();

        let prefix_rule = match self.get_previous().get_token_type().get_rule().get_prefix() {
            Some(rule) => rule,
            None => {
                return Err(self.error("Expected expression."));
            },
        };

        let prefix = match apply(prefix_rule, self, can_assign) {
            Ok(tree) => tree,
            Err(e) => {
                return Err(e);
            },
        };
        self.push_ast(prefix);

        while precedence.value() <= self.get_current().get_token_type().get_rule().precedence.value()
            invariant
                self.wf(),
                goal == ParserView::finish_precedence(self@.infix_loop(precedence), precedence),
                self@.stack.len() > 0,
                self@.stack.drop_last() == start.stack,
                self@.remaining() < start.remaining(),
                start == old(self)@,
                goal == start.parse_precedence(precedence),
                can_assign == (precedence.level() <= Precedence::PrecAssignment.level()),
            decreases self@.remaining(),
        {
            let ghost before = self@;
            proof {
                lemma_advance_consumes(before);
            }
            match self.advance() {
                Ok(_) => {},
                Err(e) => {
                    return Err(e);
                },
            }
            let infix_rule = match self.get_previous().get_token_type().get_rule().get_infix() {
                Some(rule) => rule,
                None => {
                    return Err(self.error("Expected operator."));
                },
            };
            let infix = match apply(infix_rule, self, can_assign) {
                Ok(tree) => tree,
                Err(e) => {
                    return Err(e);
                },
            };
            self.push_ast(infix);
        }

        if can_assign {
            proof {
                lemma_advance_consumes(self@);
            }
            match self.t_match(TokenType::Equal) {
                Ok(true) => {
                    return Err(self.error("Invalid assignment target."));
                },
                Ok(false) => {},
                Err(e) => {
                    return Err(e);
                },
            }
        }
        Ok(self.pop_ast())
    }

    /// Parses an expression.
    pub fn expression(&mut self) -> (r: Result<Box<AstNode>, CompilerErrorKind>)
        requires
            old(self).wf(),
        ensures
            final(self).wf(),
            old(self)@.expression() == (Parsed {
                state: final(self)@,
                result: tree_result_view(r),
            }),
            final(self)@.remaining() <= old(self)@.remaining(),
            r is Ok ==> final(self)@.remaining() < old(self)@.remaining() && final(self)@.stack
                == old(self)@.stack,
        decreases old(self)@.remaining(), 1nat,
    {
        self.parse_precedence(Precedence::PrecAssignment)
    }

    /// Parses a statement: `print` with an expression, or an expression
    /// alone, and the semicolon behind it.
    pub fn statement(&mut self) -> (r: Result<Box<AstNode>, CompilerErrorKind>)
        requires
            old(self).wf(),
        ensures
            final(self).wf(),
            old(self)@.statement() == (Parsed {
                state: final(self)@,
                result: tree_result_view(r),
            }),
            final(self)@.remaining() <= old(self)@.remaining(),
            r is Ok ==> final(self)@.remaining() < old(self)@.remaining() && final(self)@.stack
                == old(self)@.stack,
    {
        proof {
            lemma_advance_consumes(self@);
        }
        match self.t_match(TokenType::Print) {
            Ok(true) => self.print_statement(),
            Ok(false) => self.expression_statement(),
            Err(e) => Err(e),
        }
    }

    /// Parses a block: an opening brace or none, statements up to the
    /// closing brace or the end of the text, and the closing brace.
    pub fn block(&mut self) -> (r: Result<Box<AstNode>, CompilerErrorKind>)
        requires
            old(self).wf(),
        ensures
            final(self).wf(),
            old(self)@.block() == (Parsed { state: final(self)@, result: tree_result_view(r) }),
    {
        let ghost goal = self@.block();
        match self.t_match(TokenType::LeftBrace) {
            Ok(_) => {},
            Err(e) => {
                return Err(e);
            },
        }

        let mut asts: Vec<Box<AstNode>> = Vec::new();
        let mut done = false;
        while !done
            invariant
                self.wf(),
                goal == old(self)@.block(),
                goal == ParserView::finish_block(
                    if done {
                        Parsed { state: self@, result: Ok(trees_of(asts@)) }
                    } else {
                        self@.statements(trees_of(asts@))
                    },
                ),
            decreases
                    self@.remaining(),
                    if done {
                        0nat
                    } else {
                        1nat
                    },
        {
            let ghost before = self@;
            proof {
                lemma_advance_consumes(before);
            }
            if self.check(TokenType::RightBrace) {
                done = true;
            } else {
                match self.t_match(TokenType::Eof) {
                    Ok(true) => {
                        done = true;
                    },
                    Ok(false) => {
                        match self.statement() {
                            Ok(ast) => {
                                proof {
                                    lemma_trees_of_push(asts@, ast);
                                }
                                asts.push(ast);
                            },
                            Err(e) => {
                                return Err(e);
                            },
                        }
                    },
                    Err(e) => {
                        return Err(e);
                    },
                }
            }
        }
        match self.consume(TokenType::RightBrace, "Expect '}' after block") {
            Ok(_) => {},
            Err(e) => {
                return Err(e);
            },
        }
        Ok(Box::new(AstNode::Block(BlockNode::new(asts))))
    }

    /// Parses the whole text as a block.
    pub fn parse(&mut self) -> (r: Result<Box<AstNode>, CompilerErrorKind>)
        requires
            old(self).wf(),
        ensures
            final(self).wf(),
            old(self)@.block() == (Parsed { state: final(self)@, result: tree_result_view(r) }),
    {
        self.block()
    }

    /// Parses the rest of a print statement.
    fn print_statement(&mut self) -> (r: Result<Box<AstNode>, CompilerErrorKind>)
        requires
            old(self).wf(),
        ensures
            final(self).wf(),
            old(self)@.print_statement() == (Parsed {
                state: final(self)@,
                result: tree_result_view(r),
            }),
            final(self)@.remaining() <= old(self)@.remaining(),
            r is Ok ==> final(self)@.remaining() < old(self)@.remaining() && final(self)@.stack
                == old(self)@.stack,
    {
        let ast = match self.expression() {
            Ok(ast) => ast,
            Err(e) => {
                return Err(e);
            },
        };
        proof {
            lemma_advance_consumes(self@);
        }
        match self.consume(TokenType::Semicolon, "Expected ';' after expression.") {
            Ok(_) => {},
            Err(e) => {
                return Err(e);
            },
        }
        Ok(Box::new(AstNode::Print(PrintAstNode::new(ast))))
    }

    /// Parses an expression and the semicolon behind it.
    fn expression_statement(&mut self) -> (r: Result<Box<AstNode>, CompilerErrorKind>)
        requires
            old(self).wf(),
        ensures
            final(self).wf(),
            old(self)@.expression_statement() == (Parsed {
                state: final(self)@,
                result: tree_result_view(r),
            }),
            final(self)@.remaining() <= old(self)@.remaining(),
            r is Ok ==> final(self)@.remaining() < old(self)@.remaining() && final(self)@.stack
                == old(self)@.stack,
    {
        let ast = match self.expression() {
            Ok(ast) => ast,
            Err(e) => {
                return Err(e);
            },
        };
        proof {
            lemma_advance_consumes(self@);
        }
        match self.consume(TokenType::Semicolon, "Expected ';' after expression.") {
            Ok(_) => {},
            Err(e) => {
                return Err(e);
            },
        }
        Ok(ast)
    }
}

} // verus!
