//! A model of the machine that runs the generated code, and the proof that
//! the code of an expression computes the value of the expression.

use vstd::prelude::*;
use crate::codegen::module::registers::{
    all_free,
    first_free,
    free_count,
    no_registers_message,
    release,
};
use crate::codegen::target::{CodeGen, Emitted, GeneratorView};
use crate::codegen::x86::instructions::{
    freed_register,
    kept_register,
    lemma_texts_add,
    operation_instrs,
    print_instrs,
    texts,
    x86_post_amble,
    x86_pre_amble,
    Instr,
};
use crate::codegen::x86::x86_generator::X86Generator;
use crate::common::errors::error::ErrorView;
use crate::interpreter::ast_interpreter::{
    expression_code,
    printed_expression,
    program_code,
    unknown_node_message,
    unsupported_operator_message,
};
use crate::parser::ast::node::Tree;
use crate::parser::operations::Operations;
use crate::scanner::tokens::bits_of;

verus! {

/// The state of the machine: the four registers of the register file, the
/// registers `%rax`, `%rdx` and `%rdi`, the arguments with which the print
/// helper was called so far, and whether a division has faulted.
pub struct Machine {
    pub regs: Seq<i64>,
    pub rax: i64,
    pub rdx: i64,
    pub rdi: i64,
    pub printed: Seq<i64>,
    pub faulted: bool,
}

/// The 64-bit number that the low 64 bits of `x` stand for in two's complement.
pub open spec fn wrap(x: int) -> i64 {
    let low = x % 0x1_0000_0000_0000_0000;
    if low >= 0x8000_0000_0000_0000 {
        (low - 0x1_0000_0000_0000_0000) as i64
    } else {
        low as i64
    }
}

/// The quotient of a division that rounds towards zero (for `b` other than 0).
pub open spec fn quotient(a: int, b: int) -> int {
    if a >= 0 && b > 0 {
        a / b
    } else if a >= 0 {
        -(a / (-b))
    } else if b > 0 {
        -((-a) / b)
    } else {
        (-a) / (-b)
    }
}

/// The machine after one instruction. A machine that has faulted stays as it
/// is. A division divides the 128-bit number in `%rdx:%rax`; it faults if the
/// divisor is 0 or the quotient does not fit in 64 bits. What the print
/// helper does to the registers is not part of the model.
pub open spec fn step(m: Machine, instr: Instr) -> Machine {
    if m.faulted {
        m
    } else {
        match instr {
            Instr::Load { value, reg } => Machine { regs: m.regs.update(reg as int, value), ..m },
            Instr::Add { source, target } => Machine {
                regs: m.regs.update(
                    target as int,
                    wrap(m.regs[target as int] + m.regs[source as int]),
                ),
                ..m
            },
            Instr::Sub { source, target } => Machine {
                regs: m.regs.update(
                    target as int,
                    wrap(m.regs[target as int] - m.regs[source as int]),
                ),
                ..m
            },
            Instr::Mul { source, target } => Machine {
                regs: m.regs.update(
                    target as int,
                    wrap(m.regs[source as int] * m.regs[target as int]),
                ),
                ..m
            },
            Instr::ToRax { reg } => Machine { rax: m.regs[reg as int], ..m },
            Instr::SignExtend => Machine {
                rdx: if m.rax < 0 {
                    -1i64
                } else {
                    0i64
                },
                ..m
            },
            Instr::Divide { reg } => {
                let dividend = m.rdx * 0x1_0000_0000_0000_0000 + bits_of(m.rax);
                let divisor = m.regs[reg as int];
                if divisor == 0 || quotient(dividend, divisor as int) < i64::MIN || quotient(
                    dividend,
                    divisor as int,
                ) > i64::MAX {
                    Machine { faulted: true, ..m }
                } else {
                    Machine {
                        rax: quotient(dividend, divisor as int) as i64,
                        rdx: (dividend - quotient(dividend, divisor as int) * divisor) as i64,
                        ..m
                    }
                }
            },
            Instr::FromRax { reg } => Machine { regs: m.regs.update(reg as int, m.rax), ..m },
            Instr::ToRdi { reg } => Machine { rdi: m.regs[reg as int], ..m },
            Instr::Print => Machine { printed: m.printed.push(m.rdi), ..m },
        }
    }
}

/// The machine after a run of instructions.
pub open spec fn run(m: Machine, instrs: Seq<Instr>) -> Machine
    decreases instrs.len(),
{
    if instrs.len() == 0 {
        m
    } else {
        run(step(m, instrs[0]), instrs.drop_first())
    }
}

/// The result of an arithmetic operator on two numbers, in 64-bit arithmetic
/// that wraps around; a division by 0 and a division that overflows have none.
pub open spec fn apply_operation(op: Operations, a: i64, b: i64) -> Option<i64> {
    match op {
        Operations::OpIntAdd => Some(wrap(a + b)),
        Operations::OpIntMinus => Some(wrap(a - b)),
        Operations::OpIntMul => Some(wrap(a * b)),
        Operations::OpIntDiv => if b == 0 || (a == i64::MIN && b == -1) {
            None
        } else {
            Some(quotient(a as int, b as int) as i64)
        },
        _ => None,
    }
}

/// The value of an expression, or nothing where a division by 0 or a
/// division that overflows is met.
pub open spec fn eval(tree: Tree) -> Option<i64>
    decreases tree,
{
    match tree {
        Tree::Value(value) => Some(value),
        Tree::Binary(op, left, right) => match (eval(*left), eval(*right)) {
            (Some(a), Some(b)) => apply_operation(op, a, b),
            _ => None,
        },
        _ => None,
    }
}

/// The instructions of an expression, with the register file afterwards and
/// the register of the value or the error.
pub struct Compiled {
    pub instrs: Seq<Instr>,
    pub free: Seq<bool>,
    pub result: Result<usize, ErrorView>,
}

/// The instructions that the generator emits for `tree` when the registers
/// of `free` are free.
pub open spec fn compile_expression(free: Seq<bool>, tree: Tree) -> Compiled
    decreases tree,
{
    match tree {
        Tree::Value(value) => match first_free(free) {
            Some(reg) => Compiled {
                instrs: seq![Instr::Load { value, reg }],
                free: free.update(reg as int, false),
                result: Ok(reg),
            },
            None => Compiled {
                instrs: Seq::empty(),
                free,
                result: Err(ErrorView::CodeGeneratorError(no_registers_message())),
            },
        },
        Tree::Binary(op, left, right) => {
            let first = compile_expression(free, *left);
            match first.result {
                Err(e) => first,
                Ok(reg1) => {
                    let second = compile_expression(first.free, *right);
                    let both = first.instrs + second.instrs;
                    match second.result {
                        Err(e) => Compiled { instrs: both, free: second.free, result: Err(e) },
                        Ok(reg2) => if op.is_arithmetic() {
                            Compiled {
                                instrs: both + operation_instrs(op, reg1, reg2),
                                free: release(second.free, freed_register(op, reg1, reg2)),
                                result: Ok(kept_register(op, reg1, reg2)),
                            }
                        } else {
                            Compiled {
                                instrs: both,
                                free: second.free,
                                result: Err(
                                    ErrorView::CodeGeneratorError(unsupported_operator_message()),
                                ),
                            }
                        },
                    }
                },
            }
        },
        _ => Compiled {
            instrs: Seq::empty(),
            free,
            result: Err(ErrorView::InternalError(unknown_node_message())),
        },
    }
}

/// What the generator emits for an expression are the lines of the
/// instructions of `compile_expression`, and it leaves the registers as
/// `compile_expression` says.
pub proof fn lemma_code_is_text_of_instructions(g: GeneratorView, tree: Tree)
    ensures
        expression_code::<X86Generator>(g, tree) == (Emitted {
            state: GeneratorView {
                lines: g.lines + texts(compile_expression(g.free, tree).instrs),
                free: compile_expression(g.free, tree).free,
            },
            result: compile_expression(g.free, tree).result,
        }),
    decreases tree,
{
    let c = compile_expression(g.free, tree);
    let code = expression_code::<X86Generator>(g, tree);
    match tree {
        Tree::Value(value) => {
            if first_free(g.free) is Some {
                assert(g.lines + texts(c.instrs) =~= g.lines.push(c.instrs[0].text()));
            }
        },
        Tree::Binary(op, left, right) => {
            lemma_code_is_text_of_instructions(g, *left);
            let first = compile_expression(g.free, *left);
            let first_code = expression_code::<X86Generator>(g, *left);
            if let Ok(reg1) = first.result {
                lemma_code_is_text_of_instructions(first_code.state, *right);
                let second = compile_expression(first.free, *right);
                let second_code = expression_code::<X86Generator>(first_code.state, *right);
                let both = first.instrs + second.instrs;
                lemma_texts_add(first.instrs, second.instrs);
                assert(second_code.state.lines =~= g.lines + texts(both));
                if let Ok(reg2) = second.result {
                    let last = operation_instrs(op, reg1, reg2);
                    lemma_texts_add(both, last);
                    assert(code.state.lines =~= g.lines + texts(c.instrs));
                }
            }
        },
        _ => {},
    }
}

/// Running two runs of instructions, one behind the other, is running the
/// second on what the first leaves.
pub proof fn lemma_run_add(m: Machine, first: Seq<Instr>, second: Seq<Instr>)
    ensures
        run(m, first + second) == run(run(m, first), second),
    decreases first.len(),
{
    if first.len() > 0 {
        assert((first + second).drop_first() =~= first.drop_first() + second);
        lemma_run_add(step(m, first[0]), first.drop_first(), second);
    }
}

/// A machine that has faulted stays as it is.
proof fn lemma_run_faulted(m: Machine, instrs: Seq<Instr>)
    requires
        m.faulted,
    ensures
        run(m, instrs) == m,
    decreases instrs.len(),
{
    if instrs.len() > 0 {
        lemma_run_faulted(m, instrs.drop_first());
    }
}

/// Running one instruction.
proof fn lemma_run_one(m: Machine, instr: Instr)
    ensures
        run(m, seq![instr]) == step(m, instr),
{
    reveal_with_fuel(run, 2);
}

/// After sign extension, `%rdx:%rax` holds the number in `%rax`.
proof fn lemma_sign_extended(rax: i64)
    ensures
        (if rax < 0 {
            -1int
        } else {
            0int
        }) * 0x1_0000_0000_0000_0000 + bits_of(rax) == rax,
{
}

/// A quotient that rounds towards zero fits in 64 bits unless the least
/// number is divided by -1.
proof fn lemma_quotient_fits(a: i64, b: i64)
    requires
        b != 0,
        !(a == i64::MIN && b == -1),
    ensures
        i64::MIN <= quotient(a as int, b as int) <= i64::MAX,
{
    let x = a as int;
    let y = b as int;
    if x >= 0 && y > 0 {
        assert(0 <= x / y <= x) by (nonlinear_arith)
            requires
                x >= 0,
                y > 0,
        ;
    } else if x >= 0 {
        assert(0 <= x / (-y) <= x) by (nonlinear_arith)
            requires
                x >= 0,
                -y > 0,
        ;
    } else if y > 0 {
        assert(0 <= (-x) / y <= -x) by (nonlinear_arith)
            requires
                -x >= 0,
                y > 0,
        ;
    } else if y != -1 {
        assert(0 <= (-x) / (-y) <= (-x) / 2) by (nonlinear_arith)
            requires
                -x >= 0,
                -y >= 2,
        ;
    }
}

/// The instructions of an operation compute it: run on a machine that has
/// not faulted, they fault exactly if the operation has no result, and else
/// they leave the result in the register that is kept and change no register
/// but the two of the operands; they print nothing.
proof fn lemma_operation_computes(m: Machine, op: Operations, reg1: usize, reg2: usize)
    requires
        m.regs.len() == 4,
        !m.faulted,
        op.is_arithmetic(),
        reg1 < 4,
        reg2 < 4,
        reg1 != reg2,
    ensures
        ({
            let after = run(m, operation_instrs(op, reg1, reg2));
            let result = apply_operation(op, m.regs[reg1 as int], m.regs[reg2 as int]);
            &&& after.regs.len() == 4
            &&& after.printed == m.printed
            &&& after.faulted == (result is None)
            &&& !after.faulted ==> after.regs[kept_register(op, reg1, reg2) as int] == result->0
                && forall|r: int|
                0 <= r < 4 && r != reg1 && r != reg2 ==> after.regs[r] == m.regs[r]
        }),
{
    let instrs = operation_instrs(op, reg1, reg2);
    if op == Operations::OpIntDiv {
        let a = m.regs[reg1 as int];
        let b = m.regs[reg2 as int];
        let m1 = step(m, instrs[0]);
        let m2 = step(m1, instrs[1]);
        let m3 = step(m2, instrs[2]);
        let m4 = step(m3, instrs[3]);
        assert(run(m, instrs) == m4) by {
            reveal_with_fuel(run, 5);
            assert(instrs.drop_first().drop_first().drop_first().drop_first() =~= Seq::<
                Instr,
            >::empty());
        }
        lemma_sign_extended(a);
        if b != 0 && !(a == i64::MIN && b == -1) {
            lemma_quotient_fits(a, b);
        } else if b != 0 {
            assert(0x8000_0000_0000_0000int / 1 == 0x8000_0000_0000_0000int);
        }
    } else {
        lemma_run_one(m, instrs[0]);
    }
}

/// The code of an expression takes one register: where it is emitted
/// without error, the register of the value was free before and is the only
/// one whose state has changed.
pub proof fn lemma_expression_takes_a_register(free: Seq<bool>, tree: Tree)
    requires
        free.len() == 4,
        compile_expression(free, tree).result is Ok,
    ensures
        ({
            let compiled = compile_expression(free, tree);
            let reg = compiled.result->Ok_0;
            &&& reg < 4
            &&& free[reg as int]
            &&& compiled.free == free.update(reg as int, false)
        }),
    decreases tree,
{
    let compiled = compile_expression(free, tree);
    match tree {
        Tree::Binary(op, left, right) => {
            let first = compile_expression(free, *left);
            lemma_expression_takes_a_register(free, *left);
            lemma_expression_takes_a_register(first.free, *right);
            assert(compiled.free =~= free.update(compiled.result->Ok_0 as int, false));
        },
        _ => {},
    }
}

/// The code of an expression computes the expression. Where it is emitted
/// without error and run on any machine, it faults exactly if the machine
/// had faulted or the expression has no value, and else it leaves the value
/// of the expression in its register, changes no register that was not
/// free, and prints nothing.
pub proof fn lemma_expression_computes(free: Seq<bool>, tree: Tree, m: Machine)
    requires
        free.len() == 4,
        m.regs.len() == 4,
        compile_expression(free, tree).result is Ok,
    ensures
        ({
            let compiled = compile_expression(free, tree);
            let reg = compiled.result->Ok_0;
            let after = run(m, compiled.instrs);
            &&& after.regs.len() == 4
            &&& after.printed == m.printed
            &&& after.faulted == (m.faulted || eval(tree) is None)
            &&& !after.faulted ==> after.regs[reg as int] == eval(tree)->0 && forall|r: int|
                0 <= r < 4 && !free[r] ==> after.regs[r] == m.regs[r]
        }),
    decreases tree,
{
    lemma_expression_takes_a_register(free, tree);
    match tree {
        Tree::Value(value) => {
            let reg = first_free(free)->0;
            lemma_run_one(m, Instr::Load { value, reg });
        },
        Tree::Binary(op, left, right) => {
            let first = compile_expression(free, *left);
            let reg1 = first.result->Ok_0;
            let second = compile_expression(first.free, *right);
            let reg2 = second.result->Ok_0;
            let m1 = run(m, first.instrs);
            let m2 = run(m1, second.instrs);
            let both = first.instrs + second.instrs;
            let last = operation_instrs(op, reg1, reg2);
            lemma_expression_takes_a_register(free, *left);
            lemma_expression_takes_a_register(first.free, *right);
            lemma_expression_computes(free, *left, m);
            lemma_expression_computes(first.free, *right, m1);
            lemma_run_add(m, first.instrs, second.instrs);
            lemma_run_add(m, both, last);
            if m2.faulted {
                lemma_run_faulted(m2, last);
            } else {
                lemma_operation_computes(m2, op, reg1, reg2);
                let after = run(m2, last);
                if !after.faulted {
                    assert forall|r: int| 0 <= r < 4 && !free[r] implies after.regs[r]
                        == m.regs[r] by {
                        assert(!first.free[r]);
                    }
                }
            }
        },
        _ => {},
    }
}

/// How many registers the code of an expression needs: one for a value; for
/// an operation, what its left operand needs, or one more than its right
/// operand needs, since the left operand keeps its register meanwhile.
pub open spec fn registers_needed(tree: Tree) -> nat
    decreases tree,
{
    match tree {
        Tree::Value(_) => 1,
        Tree::Binary(_, left, right) => if registers_needed(*left) > registers_needed(*right) {
            registers_needed(*left)
        } else {
            registers_needed(*right) + 1
        },
        _ => 0,
    }
}

/// The code of an expression is emitted without error exactly if as many
/// registers are free as it needs; else the error is that of the allocator.
pub proof fn lemma_registers_suffice(free: Seq<bool>, tree: Tree)
    requires
        free.len() == 4,
        tree.is_expression(),
    ensures
        compile_expression(free, tree).result is Ok <==> registers_needed(tree) <= free_count(
            free,
        ),
        compile_expression(free, tree).result is Err ==> compile_expression(free, tree).result
            == Err::<usize, ErrorView>(ErrorView::CodeGeneratorError(no_registers_message())),
    decreases tree,
{
    match tree {
        Tree::Binary(op, left, right) => {
            lemma_registers_suffice(free, *left);
            let first = compile_expression(free, *left);
            if first.result is Ok {
                lemma_expression_takes_a_register(free, *left);
                lemma_registers_suffice(first.free, *right);
            }
        },
        _ => {},
    }
}

/// The instructions of a program's body: those of the printed expression,
/// then the move of its register to the argument register and the call of
/// the print helper.
pub open spec fn program_body(tree: Tree) -> Seq<Instr> {
    match printed_expression(tree) {
        Ok(expr) => {
            let compiled = compile_expression(all_free(), expr);
            match compiled.result {
                Ok(reg) => compiled.instrs + print_instrs(reg),
                Err(_) => compiled.instrs,
            }
        },
        Err(_) => Seq::empty(),
    }
}

/// A program that is emitted without error is what stands before, the lines
/// of its body and what stands behind, with every register free at the end.
/// Run on a machine that has not faulted, the body calls the print helper
/// once, with the value of the printed expression, or it faults if that
/// expression has no value.
pub proof fn lemma_program_prints_its_value(g: GeneratorView, tree: Tree, m: Machine)
    requires
        m.regs.len() == 4,
        !m.faulted,
        program_code::<X86Generator>(g, tree).result is Ok,
    ensures
        printed_expression(tree) is Ok,
        program_code::<X86Generator>(g, tree).state == (GeneratorView {
            lines: g.lines + x86_pre_amble() + texts(program_body(tree)) + x86_post_amble(),
            free: all_free(),
        }),
        match eval(printed_expression(tree)->Ok_0) {
            Some(value) => !run(m, program_body(tree)).faulted && run(
                m,
                program_body(tree),
            ).printed == m.printed.push(value),
            None => run(m, program_body(tree)).faulted,
        },
{
    let opened = X86Generator::pre_amble(g);
    let expr = printed_expression(tree)->Ok_0;
    lemma_code_is_text_of_instructions(opened.state, expr);
    let compiled = compile_expression(all_free(), expr);
    let reg = compiled.result->Ok_0;
    lemma_expression_takes_a_register(all_free(), expr);
    lemma_expression_computes(all_free(), expr, m);
    let last = print_instrs(reg);
    let m1 = run(m, compiled.instrs);
    lemma_run_add(m, compiled.instrs, last);
    lemma_texts_add(compiled.instrs, last);
    if m1.faulted {
        lemma_run_faulted(m1, last);
    } else {
        assert(run(m1, last) == step(step(m1, last[0]), last[1])) by {
            reveal_with_fuel(run, 3);
        }
    }
    let code = program_code::<X86Generator>(g, tree);
    assert(code.state.lines =~= g.lines + x86_pre_amble() + texts(program_body(tree))
        + x86_post_amble());
    assert(code.state.free =~= all_free());
}

} // verus!
