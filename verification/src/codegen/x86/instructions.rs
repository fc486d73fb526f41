//! The instructions of the code that the x86 generator emits for a
//! program's body, and how they are written.

use vstd::prelude::*;
use crate::codegen::module::registers::{register_text, RegistersType};
use crate::codegen::target::RegLoadable;
use crate::parser::operations::Operations;

verus! {

/// The name of the x86 register in slot `reg`.
pub open spec fn x86_register(reg: usize) -> Seq<char> {
    register_text(RegistersType::X86, reg)
}

/// The line of an instruction with two operands.
pub open spec fn x86_line(mnemonic: Seq<char>, source: Seq<char>, destination: Seq<char>) -> Seq<
    char,
> {
    mnemonic + source + ", "@ + destination
}

/// The line that loads an operand into the register `reg`.
pub open spec fn x86_load(operand: Seq<char>, reg: usize) -> Seq<char> {
    x86_line("\tmovq\t"@, operand, x86_register(reg))
}

/// An instruction of a program's body. A register is one of the four slots
/// of the register file.
pub enum Instr {
    /// `movq $value, reg`
    Load { value: i64, reg: usize },
    /// `addq source, target`
    Add { source: usize, target: usize },
    /// `subq source, target`
    Sub { source: usize, target: usize },
    /// `imulq source, target`
    Mul { source: usize, target: usize },
    /// `movq reg, %rax`
    ToRax { reg: usize },
    /// `cqo`
    SignExtend,
    /// `idivq reg`
    Divide { reg: usize },
    /// `movq %rax, reg`
    FromRax { reg: usize },
    /// `movq reg, %rdi`
    ToRdi { reg: usize },
    /// `call printint`
    Print,
}

impl Instr {
    /// The line that writes the instruction.
    pub open spec fn text(self) -> Seq<char> {
        match self {
            Instr::Load { value, reg } => x86_load(value.gnu_x86_text(), reg),
            Instr::Add { source, target } => x86_line(
                "\taddq\t"@,
                x86_register(source),
                x86_register(target),
            ),
            Instr::Sub { source, target } => x86_line(
                "\tsubq\t"@,
                x86_register(source),
                x86_register(target),
            ),
            Instr::Mul { source, target } => x86_line(
                "\timulq\t"@,
                x86_register(source),
                x86_register(target),
            ),
            Instr::ToRax { reg } => x86_line("\tmovq\t"@, x86_register(reg), "%rax"@),
            Instr::SignExtend => "\tcqo"@,
            Instr::Divide { reg } => "\tidivq\t"@ + x86_register(reg),
            Instr::FromRax { reg } => x86_line("\tmovq\t"@, "%rax"@, x86_register(reg)),
            Instr::ToRdi { reg } => x86_line("\tmovq\t"@, x86_register(reg), "%rdi"@),
            Instr::Print => "\tcall\tprintint"@,
        }
    }
}

/// The lines that write a run of instructions.
pub open spec fn texts(instrs: Seq<Instr>) -> Seq<Seq<char>> {
    Seq::new(instrs.len(), |i: int| instrs[i].text())
}

/// The register that holds the result of an operation on the values in
/// `reg1` and `reg2`: the second for a sum and a product, the first for a
/// difference and a quotient.
pub open spec fn kept_register(op: Operations, reg1: usize, reg2: usize) -> usize {
    if op == Operations::OpIntAdd || op == Operations::OpIntMul {
        reg2
    } else {
        reg1
    }
}

/// The register that an operation frees: the one that it does not keep. For
/// a division it is the register of the divisor.
pub open spec fn freed_register(op: Operations, reg1: usize, reg2: usize) -> usize {
    if op == Operations::OpIntAdd || op == Operations::OpIntMul {
        reg1
    } else {
        reg2
    }
}

/// The instructions of an operation on the values in `reg1` and `reg2`. A
/// division goes through the fixed registers of the target: the dividend
/// moves to `%rax` and is sign-extended into `%rdx`, then comes the division
/// by `reg2`, and the quotient moves back from `%rax` to `reg1`.
pub open spec fn operation_instrs(op: Operations, reg1: usize, reg2: usize) -> Seq<Instr> {
    match op {
        Operations::OpIntAdd => seq![Instr::Add { source: reg1, target: reg2 }],
        Operations::OpIntMinus => seq![Instr::Sub { source: reg2, target: reg1 }],
        Operations::OpIntMul => seq![Instr::Mul { source: reg1, target: reg2 }],
        Operations::OpIntDiv => seq![
            Instr::ToRax { reg: reg1 },
            Instr::SignExtend,
            Instr::Divide { reg: reg2 },
            Instr::FromRax { reg: reg1 },
        ],
        _ => Seq::empty(),
    }
}

/// The instructions that print the value in `reg`: it moves to the first
/// argument register, and the print helper is called.
pub open spec fn print_instrs(reg: usize) -> Seq<Instr> {
    seq![Instr::ToRdi { reg }, Instr::Print]
}

/// The lines before the program's code: the helper that prints an integer
/// with a newline, and the entry of `main`, which sets up its stack frame.
pub open spec fn x86_pre_amble() -> Seq<Seq<char>> {
    seq![
        ".text"@,
        ".LC0:"@,
        "\t.string\t\"%d\\n\""@,
        "printint:"@,
        "\tpushq\t%rbp"@,
        "\tmovq\t%rsp, %rbp"@,
        "\tsubq\t$16, %rsp"@,
        "\tmovl\t%edi, -4(%rbp)"@,
        "\tmovl\t-4(%rbp), %eax"@,
        "\tmovl\t%eax, %esi"@,
        "\tleaq\t.LC0(%rip), %rdi"@,
        "\tmovl\t$0, %eax"@,
        "\tcall\tprintf@PLT"@,
        "\tnop"@,
        "\tleave"@,
        "\tret"@,
        ""@,
        ".globl\tmain"@,
        ".type\tmain, @function"@,
        "main:"@,
        "\tpushq\t%rbp"@,
        "\tmovq\t%rsp, %rbp"@,
    ]
}

/// The lines behind the program's code: `main` returns 0.
pub open spec fn x86_post_amble() -> Seq<Seq<char>> {
    seq!["\tmovl\t$0, %eax"@, "\tpopq\t$rbp"@, "\tret"@]
}

/// The lines of two runs of instructions, one behind the other.
pub proof fn lemma_texts_add(first: Seq<Instr>, second: Seq<Instr>)
    ensures
        texts(first + second) == texts(first) + texts(second),
{
}

} // verus!
