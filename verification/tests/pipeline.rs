use arith_compiler::codegen::module::output::TextOutput;
use arith_compiler::common::errors::error::CompilerErrorKind;
use arith_compiler::parser::ast::node::AstNode;
use arith_compiler::parser::operations::Operations;
use arith_compiler::source_code::SourceCode;

/// An expression as the tests build it.
#[derive(Clone, Debug, PartialEq)]
enum Expr {
    Value(i64),
    Binary(Operations, Box<Expr>, Box<Expr>),
}

fn binding(op: Operations) -> u8 {
    match op {
        Operations::OpIntAdd | Operations::OpIntMinus => 6,
        _ => 7,
    }
}

fn sign(op: Operations) -> &'static str {
    match op {
        Operations::OpIntAdd => "+",
        Operations::OpIntMinus => "-",
        Operations::OpIntMul => "*",
        _ => "/",
    }
}

/// Writes an expression for a level: a space before each token, brackets
/// only where the operator binds less tightly than the level asks.
fn write(expr: &Expr, level: u8, text: &mut String) {
    match expr {
        Expr::Value(value) => {
            text.push_str(&format!(" {}", value));
        }
        Expr::Binary(op, left, right) => {
            let own = binding(*op);
            if own < level {
                text.push_str(" (");
            }
            write(left, own, text);
            text.push_str(&format!(" {}", sign(*op)));
            write(right, own + 1, text);
            if own < level {
                text.push_str(" )");
            }
        }
    }
}

fn program_text(expr: &Expr) -> String {
    let mut text = String::from(" { print");
    write(expr, 1, &mut text);
    text.push_str(" ; }");
    text
}

/// The value in 64-bit arithmetic that wraps around; nothing for a division
/// by 0 or one that overflows.
fn eval(expr: &Expr) -> Option<i64> {
    match expr {
        Expr::Value(value) => Some(*value),
        Expr::Binary(op, left, right) => {
            let a = eval(left);
            let b = eval(right);
            match (a, b) {
                (Some(a), Some(b)) => match op {
                    Operations::OpIntAdd => Some(a.wrapping_add(b)),
                    Operations::OpIntMinus => Some(a.wrapping_sub(b)),
                    Operations::OpIntMul => Some(a.wrapping_mul(b)),
                    _ => a.checked_div(b),
                },
                _ => None,
            }
        }
    }
}

fn registers_needed(expr: &Expr) -> usize {
    match expr {
        Expr::Value(_) => 1,
        Expr::Binary(_, left, right) => {
            let l = registers_needed(left);
            let r = registers_needed(right);
            if l > r {
                l
            } else {
                r + 1
            }
        }
    }
}

fn to_expr(node: &AstNode) -> Expr {
    match node {
        AstNode::Value(v) => Expr::Value(v.get_value()),
        AstNode::Binary(b) => {
            Expr::Binary(b.get_op(), Box::new(to_expr(&b.left)), Box::new(to_expr(&b.right)))
        }
        other => panic!("not an expression: {:?}", other),
    }
}

/// The expression of the one print statement of a parsed program.
fn printed(program: &AstNode) -> Expr {
    match program {
        AstNode::Block(block) => {
            assert_eq!(block.block.len(), 1);
            match &*block.block[0] {
                AstNode::Print(print) => {
                    assert_eq!(print.get_op(), Operations::OpNone);
                    to_expr(&print.expr)
                }
                other => panic!("not a print statement: {:?}", other),
            }
        }
        other => panic!("not a block: {:?}", other),
    }
}

/// Runs the body of the generated code; gives what was printed, or nothing
/// if a division faulted.
fn run(lines: &[String]) -> Option<Vec<i64>> {
    let body = &lines[22..lines.len() - 3];
    let mut regs = std::collections::HashMap::new();
    let mut printed = Vec::new();
    for line in body {
        let mut parts = line.trim_start_matches('\t').splitn(2, '\t');
        let mnemonic = parts.next().unwrap();
        let operands: Vec<&str> =
            parts.next().map(|o| o.split(", ").collect()).unwrap_or_default();
        let read = |regs: &std::collections::HashMap<String, i64>, operand: &str| -> i64 {
            match operand.strip_prefix('$') {
                Some(number) => number.parse().unwrap(),
                None => *regs.get(operand).expect("register read before it was written"),
            }
        };
        match mnemonic {
            "movq" => {
                let value = read(&regs, operands[0]);
                regs.insert(operands[1].to_string(), value);
            }
            "addq" => {
                let value = read(&regs, operands[1]).wrapping_add(read(&regs, operands[0]));
                regs.insert(operands[1].to_string(), value);
            }
            "subq" => {
                let value = read(&regs, operands[1]).wrapping_sub(read(&regs, operands[0]));
                regs.insert(operands[1].to_string(), value);
            }
            "imulq" => {
                let value = read(&regs, operands[1]).wrapping_mul(read(&regs, operands[0]));
                regs.insert(operands[1].to_string(), value);
            }
            "cqo" => {
                let sign = if read(&regs, "%rax") < 0 { -1 } else { 0 };
                regs.insert("%rdx".to_string(), sign);
            }
            "idivq" => {
                let high = read(&regs, "%rdx") as i128;
                let low = read(&regs, "%rax") as u64 as i128;
                let dividend = high * (1i128 << 64) + low;
                let divisor = read(&regs, operands[0]) as i128;
                if divisor == 0 {
                    return None;
                }
                let quotient = dividend / divisor;
                if quotient < i64::MIN as i128 || quotient > i64::MAX as i128 {
                    return None;
                }
                regs.insert("%rax".to_string(), quotient as i64);
                regs.insert("%rdx".to_string(), (dividend % divisor) as i64);
            }
            "call" => {
                assert_eq!(operands, vec!["printint"]);
                printed.push(read(&regs, "%rdi"));
            }
            other => panic!("unknown instruction {:?}", other),
        }
    }
    Some(printed)
}

/// Numbers from a fixed linear congruential sequence.
struct Numbers(u64);

impl Numbers {
    fn next(&mut self) -> u64 {
        self.0 = self.0.wrapping_mul(6364136223846793005).wrapping_add(1442695040888963407);
        self.0 >> 33
    }

    fn expr(&mut self, depth: u32) -> Expr {
        if depth == 0 || self.next() % 4 == 0 {
            let value = match self.next() % 6 {
                0 => 0,
                1 => 1,
                2 => i64::MAX,
                3 => (self.next() % 10) as i64,
                4 => (self.next() % 1000) as i64,
                _ => ((self.next() << 31) ^ self.next()) as i64 & i64::MAX,
            };
            Expr::Value(value)
        } else {
            let op = match self.next() % 4 {
                0 => Operations::OpIntAdd,
                1 => Operations::OpIntMinus,
                2 => Operations::OpIntMul,
                _ => Operations::OpIntDiv,
            };
            Expr::Binary(op, Box::new(self.expr(depth - 1)), Box::new(self.expr(depth - 1)))
        }
    }
}

fn compile(text: &str) -> (Expr, Vec<String>, Result<(), CompilerErrorKind>) {
    let source = SourceCode::new(text.to_string());
    let mut scanner = source.into_scanner();
    let mut parser = source.into_parser(&mut scanner).unwrap();
    let ast = parser.parse().unwrap();
    let (output, result) = arith_compiler::pipeline::compile(&source, TextOutput::new());
    (printed(&ast), output.lines().clone(), result)
}

#[test]
fn what_is_written_is_read_back_and_computed() {
    let mut numbers = Numbers(2024);
    let mut compiled = 0;
    let mut refused = 0;
    let mut faulted = 0;
    for round in 0..400 {
        let expr = numbers.expr(1 + round % 5);
        let text = program_text(&expr);
        let (parsed, lines, result) = compile(&text);
        assert_eq!(parsed, expr, "{}", text);
        if registers_needed(&expr) <= 4 {
            assert_eq!(result, Ok(()), "{}", text);
            match eval(&expr) {
                Some(value) => assert_eq!(run(&lines), Some(vec![value]), "{}", text),
                None => {
                    assert_eq!(run(&lines), None, "{}", text);
                    faulted += 1;
                }
            }
            compiled += 1;
        } else {
            assert_eq!(
                result,
                Err(CompilerErrorKind::CodeGeneratorError("No registers available".to_string())),
                "{}",
                text
            );
            refused += 1;
        }
    }
    assert!(compiled > 100 && refused > 0 && faulted > 0);
}

#[test]
fn brackets_are_written_only_where_needed() {
    let value = |v| Box::new(Expr::Value(v));
    let sum = Expr::Binary(Operations::OpIntAdd, value(1), value(2));
    let product = Expr::Binary(Operations::OpIntMul, Box::new(sum.clone()), value(3));
    assert_eq!(program_text(&product), " { print ( 1 + 2 ) * 3 ; }");
    let right = Expr::Binary(Operations::OpIntMinus, value(1), Box::new(sum.clone()));
    assert_eq!(program_text(&right), " { print 1 - ( 1 + 2 ) ; }");
    let left = Expr::Binary(Operations::OpIntMinus, Box::new(sum.clone()), value(1));
    assert_eq!(program_text(&left), " { print 1 + 2 - 1 ; }");
    for expr in [product, right, left] {
        let (parsed, _, result) = compile(&program_text(&expr));
        assert_eq!(parsed, expr);
        assert_eq!(result, Ok(()));
    }
}

#[test]
fn the_least_number_divided_by_minus_one_faults() {
    // -9223372036854775808 is 0 - 9223372036854775807 - 1, and -1 is 0 - 1
    let (_, lines, result) = compile("{ print (0 - 9223372036854775807 - 1) / (0 - 1); }");
    assert_eq!(result, Ok(()));
    assert_eq!(run(&lines), None);
    let (_, lines, result) = compile("{ print (0 - 9223372036854775807 - 1) / 1; }");
    assert_eq!(result, Ok(()));
    assert_eq!(run(&lines), Some(vec![i64::MIN]));
    let (_, lines, _) = compile("{ print (0 - 7) / 2; }");
    assert_eq!(run(&lines), Some(vec![-3]));
    let (_, lines, _) = compile("{ print 7 / (0 - 2); }");
    assert_eq!(run(&lines), Some(vec![-3]));
    let (_, lines, _) = compile("{ print 1 / 0; }");
    assert_eq!(run(&lines), None);
}
