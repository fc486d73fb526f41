use arith_compiler::codegen::module::output::TextOutput;
use arith_compiler::codegen::module::registers::{Registers, RegistersType};
use arith_compiler::codegen::target::{CodeGen, RegLoadable};
use arith_compiler::codegen::x86::x86_generator::X86Generator;
use arith_compiler::common::errors::error::CompilerErrorKind;
use arith_compiler::interpreter::ast_interpreter::ASTInterpreter;
use arith_compiler::parser::ast::binary_op_node::BinaryAstNode;
use arith_compiler::parser::ast::block_node::BlockNode;
use arith_compiler::parser::ast::node::AstNode;
use arith_compiler::parser::ast::print_node::PrintAstNode;
use arith_compiler::parser::ast::value_node::ValueNode;
use arith_compiler::parser::operations::Operations;
use arith_compiler::source_code::SourceCode;

const PRE_AMBLE: [&str; 22] = [
    ".text",
    ".LC0:",
    "\t.string\t\"%d\\n\"",
    "printint:",
    "\tpushq\t%rbp",
    "\tmovq\t%rsp, %rbp",
    "\tsubq\t$16, %rsp",
    "\tmovl\t%edi, -4(%rbp)",
    "\tmovl\t-4(%rbp), %eax",
    "\tmovl\t%eax, %esi",
    "\tleaq\t.LC0(%rip), %rdi",
    "\tmovl\t$0, %eax",
    "\tcall\tprintf@PLT",
    "\tnop",
    "\tleave",
    "\tret",
    "",
    ".globl\tmain",
    ".type\tmain, @function",
    "main:",
    "\tpushq\t%rbp",
    "\tmovq\t%rsp, %rbp",
];

const POST_AMBLE: [&str; 3] = ["\tmovl\t$0, %eax", "\tpopq\t$rbp", "\tret"];

/// Compiles a source text, a block if it starts with a brace and one
/// statement if not; gives the lines emitted and how it ended.
fn compile(text: &str) -> (Vec<String>, Result<(), CompilerErrorKind>) {
    let source = SourceCode::new(text.to_string());
    if text.starts_with('{') {
        let (output, result) = arith_compiler::pipeline::compile(&source, TextOutput::new());
        return (output.lines().clone(), result);
    }
    let mut scanner = source.into_scanner();
    let parsed = match source.into_parser(&mut scanner) {
        Err(e) => Err(e),
        Ok(mut parser) => parser.statement(),
    };
    match parsed {
        Err(e) => (Vec::new(), Err(e)),
        Ok(ast) => interpret(&ast),
    }
}

/// The lines between what stands before and what stands behind.
fn body(lines: &[String]) -> Vec<&str> {
    assert!(lines.len() >= PRE_AMBLE.len() + POST_AMBLE.len());
    for (line, expected) in lines.iter().zip(PRE_AMBLE.iter()) {
        assert_eq!(line, expected);
    }
    let tail = &lines[lines.len() - POST_AMBLE.len()..];
    for (line, expected) in tail.iter().zip(POST_AMBLE.iter()) {
        assert_eq!(line, expected);
    }
    lines[PRE_AMBLE.len()..lines.len() - POST_AMBLE.len()].iter().map(|l| l.as_str()).collect()
}

/// Runs the instructions of a program's body on a machine with the four
/// registers, `%rax` and `%rdi`; gives what `printint` was called with.
fn run(body: &[&str]) -> Vec<i64> {
    let mut regs = std::collections::HashMap::new();
    let mut printed = Vec::new();
    for line in body {
        let mut parts = line.trim_start_matches('\t').splitn(2, '\t');
        let mnemonic = parts.next().unwrap();
        let operands: Vec<&str> =
            parts.next().map(|o| o.split(", ").collect()).unwrap_or_default();
        let read = |regs: &std::collections::HashMap<String, i64>, operand: &str| -> i64 {
            match operand.strip_prefix('$') {
                Some(number) => number.parse().unwrap(),
                None => *regs.get(operand).expect("register read before it was written"),
            }
        };
        match mnemonic {
            "movq" => {
                let value = read(&regs, operands[0]);
                regs.insert(operands[1].to_string(), value);
            }
            "addq" => {
                let value = read(&regs, operands[1]).wrapping_add(read(&regs, operands[0]));
                regs.insert(operands[1].to_string(), value);
            }
            "subq" => {
                let value = read(&regs, operands[1]).wrapping_sub(read(&regs, operands[0]));
                regs.insert(operands[1].to_string(), value);
            }
            "imulq" => {
                let value = read(&regs, operands[1]).wrapping_mul(read(&regs, operands[0]));
                regs.insert(operands[1].to_string(), value);
            }
            "cqo" => {
                let sign = if read(&regs, "%rax") < 0 { -1 } else { 0 };
                regs.insert("%rdx".to_string(), sign);
            }
            "idivq" => {
                assert!(regs.contains_key("%rdx"), "divide without sign extension");
                let dividend = read(&regs, "%rax");
                let divisor = read(&regs, operands[0]);
                regs.insert("%rax".to_string(), dividend / divisor);
                regs.insert("%rdx".to_string(), dividend % divisor);
            }
            "call" => {
                assert_eq!(operands, vec!["printint"]);
                printed.push(read(&regs, "%rdi"));
            }
            other => panic!("unknown instruction {:?}", other),
        }
    }
    printed
}

#[test]
fn the_compiled_program_prints_seven() {
    let (lines, result) = compile("print 1+2*3;");
    assert_eq!(result, Ok(()));
    let body = body(&lines);
    assert_eq!(
        body,
        vec![
            "\tmovq\t$1, %r8",
            "\tmovq\t$2, %r9",
            "\tmovq\t$3, %r10",
            "\timulq\t%r9, %r10",
            "\taddq\t%r8, %r10",
            "\tmovq\t%r10, %rdi",
            "\tcall\tprintint",
        ]
    );
    assert_eq!(run(&body), vec![7]);
}

#[test]
fn compiled_programs_compute_their_value() {
    for (text, value) in [
        ("print 1-2-3;", -4),
        ("print (1+2)*(3+4);", 21),
        ("print 100/7/2;", 7),
        ("print 2*3-4*5;", -14),
        ("7;", 7),
        ("{ print 9223372036854775807; }", 9223372036854775807),
    ] {
        let (lines, result) = compile(text);
        assert_eq!(result, Ok(()), "{}", text);
        assert_eq!(run(&body(&lines)), vec![value], "{}", text);
    }
}

#[test]
fn division_goes_through_the_dividend_register() {
    let (lines, result) = compile("print 7/2;");
    assert_eq!(result, Ok(()));
    let body = body(&lines);
    assert_eq!(
        body,
        vec![
            "\tmovq\t$7, %r8",
            "\tmovq\t$2, %r9",
            "\tmovq\t%r8, %rax",
            "\tcqo",
            "\tidivq\t%r9",
            "\tmovq\t%rax, %r8",
            "\tmovq\t%r8, %rdi",
            "\tcall\tprintint",
        ]
    );
    assert_eq!(run(&body), vec![3]);
}

#[test]
fn division_frees_the_register_of_the_divisor() {
    let mut generator = X86Generator::new(TextOutput::new());
    let dividend = generator.cg_load(7i64).unwrap();
    let divisor = generator.cg_load(2i64).unwrap();
    assert_eq!((dividend, divisor), (0, 1));
    assert_eq!(generator.cg_div(dividend, divisor), Ok(0));
    // the divisor's register is the next one given out, the dividend's is held
    assert_eq!(generator.cg_load(5i64), Ok(1));
    assert_eq!(generator.cg_load(6i64), Ok(2));
    assert_eq!(
        generator.into_output().lines().clone(),
        vec![
            "\tmovq\t$7, %r8",
            "\tmovq\t$2, %r9",
            "\tmovq\t%r8, %rax",
            "\tcqo",
            "\tidivq\t%r9",
            "\tmovq\t%rax, %r8",
            "\tmovq\t$5, %r9",
            "\tmovq\t$6, %r10",
        ]
    );
}

#[test]
fn each_operation_keeps_one_register() {
    let mut generator = X86Generator::new(TextOutput::new());
    let a = generator.cg_load(1i64).unwrap();
    let b = generator.cg_load(2i64).unwrap();
    assert_eq!(generator.cg_add(a, b), Ok(b));
    let c = generator.cg_load(3i64).unwrap();
    assert_eq!(c, a);
    assert_eq!(generator.cg_sub(b, c), Ok(b));
    let d = generator.cg_load(-4i64).unwrap();
    assert_eq!(d, c);
    assert_eq!(generator.cg_mul(b, d), Ok(d));
    assert_eq!(generator.cg_printreg(d), Ok(()));
    assert_eq!(generator.cg_load(0i64), Ok(0));
    assert_eq!(
        generator.into_output().lines().clone(),
        vec![
            "\tmovq\t$1, %r8",
            "\tmovq\t$2, %r9",
            "\taddq\t%r8, %r9",
            "\tmovq\t$3, %r8",
            "\tsubq\t%r8, %r9",
            "\tmovq\t$-4, %r8",
            "\timulq\t%r9, %r8",
            "\tmovq\t%r8, %rdi",
            "\tcall\tprintint",
            "\tmovq\t$0, %r8",
        ]
    );
}

#[test]
fn the_fifth_register_is_refused() {
    let mut registers = Registers::new(RegistersType::X86);
    assert_eq!(registers.allocate_register(), Ok(0));
    assert_eq!(registers.allocate_register(), Ok(1));
    assert_eq!(registers.allocate_register(), Ok(2));
    assert_eq!(registers.allocate_register(), Ok(3));
    assert_eq!(
        registers.allocate_register(),
        Err(CompilerErrorKind::CodeGeneratorError("No registers available".to_string()))
    );
    registers.free_register(2);
    assert_eq!(registers.allocate_register(), Ok(2));
    assert!(registers.allocate_register().is_err());
    registers.free_register(3);
    registers.free_register(1);
    assert_eq!(registers.allocate_register(), Ok(1));
    registers.init_registers();
    assert_eq!(registers.allocate_register(), Ok(0));
    // a free slot can be freed again
    registers.free_register(3);
    registers.free_register(3);
    assert_eq!(registers.allocate_register(), Ok(1));
    assert_eq!(registers.allocate_register(), Ok(2));
    assert_eq!(registers.allocate_register(), Ok(3));
    assert!(registers.allocate_register().is_err());
}

#[test]
fn registers_have_the_names_of_their_target() {
    let x86 = Registers::new(RegistersType::X86);
    let names: Vec<&str> = (0..4).map(|reg| x86.register_name(reg)).collect();
    assert_eq!(names, vec!["%r8", "%r9", "%r10", "%r11"]);
    let arm = Registers::new(RegistersType::ARM);
    let names: Vec<&str> = (0..4).map(|reg| arm.register_name(reg)).collect();
    assert_eq!(names, vec!["r0", "r1", "r2", "r3"]);
}

#[test]
fn an_expression_that_needs_five_registers_fails() {
    let (lines, result) = compile("print 1+(2+(3+(4+5)));");
    assert_eq!(
        result,
        Err(CompilerErrorKind::CodeGeneratorError("No registers available".to_string()))
    );
    assert_eq!(lines.len(), PRE_AMBLE.len() + 4);
    assert_eq!(lines[PRE_AMBLE.len() + 3], "\tmovq\t$4, %r11");
    let (_, result) = compile("print 1+(2+(3+4));");
    assert_eq!(result, Ok(()));
    let (_, result) = compile("print 1+2+3+4+5+6;");
    assert_eq!(result, Ok(()));
}

fn value(v: i64) -> Box<AstNode> {
    Box::new(AstNode::Value(ValueNode::new(v)))
}

fn interpret(ast: &AstNode) -> (Vec<String>, Result<(), CompilerErrorKind>) {
    let generator = Box::new(X86Generator::new(TextOutput::new()));
    let mut interpreter = ASTInterpreter::new(generator);
    let result = interpreter.interpret(ast);
    let output = interpreter.into_generator().into_output();
    (output.lines().clone(), result)
}

#[test]
fn a_binary_node_without_operator_is_refused() {
    let node = AstNode::Binary(BinaryAstNode::new(value(1), value(2)));
    assert_eq!(node.get_op(), Operations::OpNone);
    let (lines, result) = interpret(&node);
    assert_eq!(
        result,
        Err(CompilerErrorKind::CodeGeneratorError("Unsupported operator".to_string()))
    );
    assert_eq!(lines.len(), PRE_AMBLE.len() + 2);
}

#[test]
fn a_statement_inside_an_expression_is_refused() {
    let mut sum = BinaryAstNode::new(value(1), Box::new(AstNode::Print(PrintAstNode::new(value(2)))));
    sum.set_op(Operations::OpIntAdd);
    let (lines, result) = interpret(&AstNode::Binary(sum));
    assert_eq!(result, Err(CompilerErrorKind::InternalError("Unknown node type".to_string())));
    assert_eq!(lines.len(), PRE_AMBLE.len() + 1);
}

#[test]
fn only_one_statement_is_compiled() {
    let two = AstNode::Block(BlockNode::new(vec![value(1), value(2)]));
    let (lines, result) = interpret(&two);
    assert_eq!(
        result,
        Err(CompilerErrorKind::InternalError("Expected a single statement".to_string()))
    );
    assert_eq!(lines.len(), PRE_AMBLE.len());
    let none = AstNode::Block(BlockNode::new(vec![]));
    assert!(interpret(&none).1.is_err());
    let nested = AstNode::Block(BlockNode::new(vec![Box::new(AstNode::Block(BlockNode::new(
        vec![value(1)],
    )))]));
    assert_eq!(
        interpret(&nested).1,
        Err(CompilerErrorKind::InternalError("Unknown node type".to_string()))
    );
    let one = AstNode::Print(PrintAstNode::new(value(5)));
    let (lines, result) = interpret(&one);
    assert_eq!(result, Ok(()));
    assert_eq!(run(&body(&lines)), vec![5]);
}

#[test]
fn operators_can_be_set_where_a_node_carries_one() {
    let mut node = AstNode::Binary(BinaryAstNode::new(value(1), value(2)));
    node.set_op(Operations::OpIntMul);
    assert_eq!(node.get_op(), Operations::OpIntMul);
    let mut print = AstNode::Print(PrintAstNode::new(value(1)));
    assert_eq!(print.get_op(), Operations::OpNone);
    print.set_op(Operations::OpValueInt);
    assert_eq!(print.get_op(), Operations::OpValueInt);
    assert_eq!(AstNode::Value(ValueNode::new(3)).get_op(), Operations::OpNone);
    assert_eq!(AstNode::Block(BlockNode::new(vec![])).get_op(), Operations::OpNone);
}

#[test]
fn immediates_are_written_in_decimal() {
    assert_eq!(0i64.to_gnu_x86(), "$0");
    assert_eq!(7i64.to_gnu_x86(), "$7");
    assert_eq!(1234567890i64.to_gnu_x86(), "$1234567890");
    assert_eq!((-42i64).to_gnu_x86(), "$-42");
    assert_eq!(i64::MAX.to_gnu_x86(), "$9223372036854775807");
    assert_eq!(i64::MIN.to_gnu_x86(), "$-9223372036854775808");
}

#[test]
fn compiling_appends_to_the_sink() {
    let mut sink = TextOutput::new();
    sink.writeln("# first");
    let source = SourceCode::new("{ print 2; }".to_string());
    let (sink, result) = arith_compiler::pipeline::compile(&source, sink);
    assert_eq!(result, Ok(()));
    let lines = sink.lines().clone();
    assert_eq!(lines[0], "# first");
    assert_eq!(run(&body(&lines[1..])), vec![2]);
    // where parsing fails nothing is emitted
    let source = SourceCode::new("{ print 2 }".to_string());
    let (sink, result) = arith_compiler::pipeline::compile(&source, sink);
    assert_eq!(
        result,
        Err(CompilerErrorKind::CompilerError(
            1,
            11,
            "Expected ';' after expression.".to_string()
        ))
    );
    assert_eq!(sink.lines().clone(), lines);
    let source = SourceCode::new("{ print 2; } @".to_string());
    let (sink, result) = arith_compiler::pipeline::compile(&source, sink);
    assert!(matches!(result, Err(CompilerErrorKind::ScannerError(1, 14, _))));
    assert_eq!(sink.lines().clone(), lines);
}

#[test]
fn the_sink_keeps_its_lines() {
    let mut output = TextOutput::new();
    assert_eq!(output.contents(), "");
    output.writeln("a");
    output.writeln("");
    output.writeln("\tb");
    assert_eq!(output.lines().clone(), vec!["a", "", "\tb"]);
    assert_eq!(output.contents(), "a\n\n\tb\n");
}
