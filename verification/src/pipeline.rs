//! The whole pipeline: the text of a program is scanned and parsed to its
//! tree, and the code generated for the tree prints the value of the
//! program's expression.

use vstd::prelude::*;
use crate::codegen::module::output::TextOutput;
use crate::codegen::module::registers::{all_free, no_registers_message};
use crate::codegen::target::{CodeGen, GeneratorView};
use crate::codegen::x86::instructions::{texts, x86_post_amble, x86_pre_amble};
use crate::codegen::x86::machine::{
    eval,
    lemma_code_is_text_of_instructions,
    lemma_program_prints_its_value,
    lemma_registers_suffice,
    program_body,
    registers_needed,
    run,
    Machine,
};
use crate::codegen::x86::x86_generator::X86Generator;
use crate::common::errors::error::{plain_result_view, CompilerErrorKind, ErrorView};
use crate::interpreter::ast_interpreter::{program_code, ASTInterpreter};
use crate::parser::ast::node::Tree;
use crate::parser::grammar::{
    advance_by,
    bare_tokens,
    binding,
    lemma_print_statement_inverts_tokens,
    lemma_reads_middle,
    reads,
    tokens_of,
};
use crate::parser::operations::Operations;
use crate::parser::parser::{lemma_statement_moves_on, Parsed, ParserView};
use crate::scanner::scanner::{lemma_scan_token_at_end, Cursor, ScannerView};
use crate::scanner::spelling::{is_spelled, lemma_scan_spelled, spelling};
use crate::source_code::SourceCode;
use crate::scanner::tokens::{TokenType, TokenView};

verus! {

/// The text of a run of tokens: a space and the spelling of each.
pub open spec fn text_of_tokens(tokens: Seq<TokenView>) -> Seq<char>
    decreases tokens.len(),
{
    if tokens.len() == 0 {
        Seq::empty()
    } else {
        seq![' '] + spelling(tokens[0]) + text_of_tokens(tokens.drop_first())
    }
}

/// Whether each of the tokens has a spelling.
pub open spec fn all_spelled(tokens: Seq<TokenView>) -> bool {
    forall|i: int| 0 <= i < tokens.len() ==> is_spelled(#[trigger] tokens[i])
}

/// An expression that can be written: its values are not negative.
pub open spec fn is_writable(tree: Tree) -> bool
    decreases tree,
{
    match tree {
        Tree::Value(value) => value >= 0,
        Tree::Binary(op, left, right) => op.is_arithmetic() && is_writable(*left) && is_writable(
            *right,
        ),
        _ => false,
    }
}

/// The tokens of the program that prints an expression: a block of one
/// print statement.
pub open spec fn program_tokens(tree: Tree) -> Seq<TokenView> {
    seq![TokenView::Single(TokenType::LeftBrace), TokenView::Single(TokenType::Print)]
        + tokens_of(tree, 1) + seq![
        TokenView::Single(TokenType::Semicolon),
        TokenView::Single(TokenType::RightBrace),
    ]
}

/// The text of the program that prints an expression.
pub open spec fn program_text(tree: Tree) -> Seq<char> {
    text_of_tokens(program_tokens(tree))
}

/// The tree of the program that prints an expression.
pub open spec fn program_tree(tree: Tree) -> Tree {
    Tree::Block(seq![Tree::Print(Operations::OpNone, Box::new(tree))])
}

/// A writable expression is an expression, and its tokens have spellings.
proof fn lemma_writable_tokens(tree: Tree, level: nat)
    requires
        is_writable(tree),
    ensures
        tree.is_expression(),
        all_spelled(tokens_of(tree, level)),
        all_spelled(bare_tokens(tree)),
    decreases tree,
{
    if let Tree::Binary(op, left, right) = tree {
        lemma_writable_tokens(*left, binding(op));
        lemma_writable_tokens(*right, binding(op) + 1);
    }
}

/// Where the rest of the text is the text of some tokens, these tokens come
/// ahead of the parser one after the other, and then `Eof`.
proof fn lemma_reads_text(state: ParserView, rest: Seq<TokenView>)
    requires
        state.requeued is None,
        state.cursor.pos <= state.src.len(),
        state.src.skip(state.cursor.pos as int) == text_of_tokens(rest),
        all_spelled(rest),
    ensures
        reads(state, seq![state.current] + rest + seq![TokenView::Single(TokenType::Eof)]),
    decreases rest.len(),
{
    let eof = TokenView::Single(TokenType::Eof);
    let tokens = seq![state.current] + rest + seq![eof];
    let src = state.src;
    let pos = state.cursor.pos;
    reveal_with_fuel(advance_by, 2);
    reveal_with_fuel(reads, 2);
    if rest.len() == 0 {
        lemma_scan_token_at_end(src, state.cursor);
    } else {
        let token = rest[0];
        let later = rest.drop_first();
        let text = text_of_tokens(rest);
        let word = spelling(token);
        let end = pos + 1 + word.len();
        let tail = text_of_tokens(later);
        assert(text.len() == src.len() - pos);
        assert forall|i: int| 0 <= i < text.len() implies src[pos + i] == #[trigger] text[i] by {}
        assert(text[0] == ' ');
        assert(src.subrange(pos + 1 as int, end as int) =~= word) by {
            assert forall|i: int| 0 <= i < word.len() implies src[pos + 1 + i] == word[i] by {
                assert(text[1 + i] == word[i]);
            }
        }
        if end < src.len() {
            assert(text[1 + word.len() as int] == tail[0]);
        }
        lemma_scan_spelled(src, state.cursor, token);
        let next = state.advance().state;
        assert(next.src.skip(end as int) =~= tail) by {
            assert forall|i: int| 0 <= i < tail.len() implies src[end + i] == tail[i] by {
                assert(text[1 + word.len() + i] == tail[i]);
            }
        }
        assert forall|i: int| 0 <= i < later.len() implies is_spelled(#[trigger] later[i]) by {}
        lemma_reads_text(next, later);
        assert(tokens.drop_first() =~= seq![next.current] + later + seq![eof]);
    }
}

/// The text of a program is read back: from the text of the program that
/// prints a writable expression, the parser reads its first token and then
/// parses the block of the one print statement of that expression.
pub proof fn lemma_program_text_parses(tree: Tree)
    requires
        is_writable(tree),
    ensures
        ({
            let scanner = ScannerView { src: program_text(tree), cursor: Cursor::start() };
            let first = ParserView::over(scanner).advance();
            &&& first.result is Ok
            &&& first.state.block().result == Ok::<Tree, ErrorView>(program_tree(tree))
        }),
{
    let eof = TokenView::Single(TokenType::Eof);
    let open = TokenView::Single(TokenType::LeftBrace);
    let close = TokenView::Single(TokenType::RightBrace);
    let keyword = TokenView::Single(TokenType::Print);
    let end = TokenView::Single(TokenType::Semicolon);
    let none = Seq::<TokenView>::empty();
    let tokens = program_tokens(tree);
    let expr = tokens_of(tree, 1);
    let statement = seq![keyword] + expr + seq![end];
    let scanner = ScannerView { src: program_text(tree), cursor: Cursor::start() };
    let initial = ParserView::over(scanner);
    lemma_writable_tokens(tree, 1);
    assert(initial.src.skip(0) =~= initial.src);
    lemma_reads_text(initial, tokens);
    // the first token is read, then the opening brace is passed
    assert(seq![initial.current] + tokens + seq![eof] =~= none + seq![initial.current] + (tokens
        + seq![eof]));
    lemma_reads_middle(initial, none, initial.current, tokens + seq![eof]);
    let s0 = advance_by(initial, 1);
    assert(tokens + seq![eof] =~= none + seq![open] + (statement + seq![close, eof]));
    lemma_reads_middle(s0, none, open, statement + seq![close, eof]);
    let s1 = advance_by(s0, 1);
    // the statement is parsed, up to the closing brace
    assert(statement + seq![close, eof] =~= statement + seq![close] + seq![eof]);
    lemma_reads_middle(s1, statement, close, seq![eof]);
    assert(statement.push(close) =~= seq![keyword] + expr + seq![end, close]);
    lemma_print_statement_inverts_tokens(s1, tree, close);
    lemma_statement_moves_on(s1);
    let s2 = advance_by(s1, expr.len() + 2);
    let printed = Tree::Print(Operations::OpNone, Box::new(tree));
    assert(s1.statements(Seq::empty()) == (Parsed {
        state: s2,
        result: Ok::<Seq<Tree>, ErrorView>(seq![printed]),
    })) by {
        reveal_with_fuel(ParserView::statements, 2);
        assert(Seq::<Tree>::empty().push(printed) =~= seq![printed]);
    }
}

/// What compiling a text gives: the lines in the sink afterwards, and the
/// first error of scanning, parsing or code generation, if there is one. The
/// text is parsed as a block, and the code for the block is emitted behind
/// the lines that the sink holds; where scanning or parsing fails, nothing is
/// emitted.
pub open spec fn compiled(text: Seq<char>, lines: Seq<Seq<char>>) -> (
    Seq<Seq<char>>,
    Result<(), ErrorView>,
) {
    let scanner = ScannerView { src: text, cursor: Cursor::start() };
    let first = ParserView::over(scanner).advance();
    match first.result {
        Err(e) => (lines, Err(e)),
        Ok(_) => {
            let parsed = first.state.block();
            match parsed.result {
                Err(e) => (lines, Err(e)),
                Ok(tree) => {
                    let code = program_code::<X86Generator>(
                        GeneratorView { lines, free: all_free() },
                        tree,
                    );
                    (code.state.lines, code.result)
                },
            }
        },
    }
}

/// The compiler is correct on the programs that print a writable expression.
/// The text of such a program compiles without error exactly if the
/// expression needs no more than the four registers; else the error is that
/// of the allocator. Where it compiles, the sink gets what stands before, the
/// lines of the body's instructions and what stands behind; and on a machine
/// that has not faulted, the body calls the print helper once, with the value
/// of the expression, or it faults if the expression has no value.
pub proof fn lemma_compiler_is_correct(tree: Tree, lines: Seq<Seq<char>>, m: Machine)
    requires
        is_writable(tree),
        m.regs.len() == 4,
        !m.faulted,
    ensures
        compiled(program_text(tree), lines).1 is Ok <==> registers_needed(tree) <= 4,
        registers_needed(tree) > 4 ==> compiled(program_text(tree), lines).1 == Err::<
            (),
            ErrorView,
        >(ErrorView::CodeGeneratorError(no_registers_message())),
        registers_needed(tree) <= 4 ==> compiled(program_text(tree), lines).0 == lines
            + x86_pre_amble() + texts(program_body(program_tree(tree))) + x86_post_amble()
            && match eval(tree) {
            Some(value) => !run(m, program_body(program_tree(tree))).faulted && run(
                m,
                program_body(program_tree(tree)),
            ).printed == m.printed.push(value),
            None => run(m, program_body(program_tree(tree))).faulted,
        },
{
    let g = GeneratorView { lines, free: all_free() };
    lemma_program_text_parses(tree);
    lemma_writable_tokens(tree, 1);
    let opened = X86Generator::pre_amble(g);
    lemma_code_is_text_of_instructions(opened.state, tree);
    lemma_registers_suffice(all_free(), tree);
    if registers_needed(tree) <= 4 {
        lemma_program_prints_its_value(g, program_tree(tree), m);
    }
}

/// Compiles the program of `source` into `output`, which is handed back
/// with what was emitted and with how the compilation ended.
pub fn compile(source: &SourceCode, output: TextOutput) -> (r: (
    TextOutput,
    Result<(), CompilerErrorKind>,
))
    requires
        source@.len() < usize::MAX,
    ensures
        compiled(source@, output@) == (r.0@, plain_result_view(r.1)),
{
    let mut scanner = source.into_scanner();
    let mut parser = match source.into_parser(&mut scanner) {
        Ok(parser) => parser,
        Err(e) => {
            return (output, Err(e));
        },
    };
    let ast = match parser.parse() {
        Ok(ast) => ast,
        Err(e) => {
            return (output, Err(e));
        },
    };
    let generator = Box::new(X86Generator::new(output));
    let mut interpreter = ASTInterpreter::new(generator);
    let result = interpreter.interpret(&ast);
    let generator = interpreter.into_generator();
    ((*generator).into_output(), result)
}

} // verus!
