//! The generator for x86-64 in the syntax of the GNU assembler.

use vstd::prelude::*;
use crate::codegen::module::output::TextOutput;
use crate::codegen::module::registers::{
    all_free,
    allocate,
    first_free,
    no_registers_message,
    release,
    Registers,
    RegistersType,
};
use crate::codegen::target::{CodeGen, Emitted, GeneratorView, RegLoadable};
use crate::codegen::x86::instructions::{
    freed_register,
    kept_register,
    operation_instrs,
    print_instrs,
    texts,
    x86_line,
    x86_load,
    x86_post_amble,
    x86_pre_amble,
};
use crate::common::errors::error::{CompilerErrorKind, ErrorView};
use crate::parser::operations::Operations;
use crate::utils::text::push_text;

verus! {

/// The generator after `code` was emitted and the register `freed` was freed.
pub open spec fn emit_and_free(g: GeneratorView, code: Seq<Seq<char>>, freed: usize) -> GeneratorView {
    GeneratorView { lines: g.lines + code, free: release(g.free, freed) }
}

/// What the generator does for an arithmetic operation on the values in
/// `reg1` and `reg2`: it emits the instructions of the operation, frees the
/// register that the operation does not keep, and gives the one it keeps.
pub open spec fn operation(g: GeneratorView, op: Operations, reg1: usize, reg2: usize) -> Emitted<
    usize,
> {
    Emitted {
        state: emit_and_free(
            g,
            texts(operation_instrs(op, reg1, reg2)),
            freed_register(op, reg1, reg2),
        ),
        result: Ok(kept_register(op, reg1, reg2)),
    }
}

/// A generator of x86-64 assembly that writes to a sink, which it holds
/// until it is done.
pub struct X86Generator {
    registers: Registers,
    output: TextOutput,
}

impl X86Generator {
    /// A generator that writes to `output`, with every register free.
    pub fn new(output: TextOutput) -> (generator: X86Generator)
        ensures
            generator.wf(),
            generator.state() == (GeneratorView { lines: output@, free: all_free() }),
    {
        X86Generator { registers: Registers::new(RegistersType::X86), output }
    }

    /// The sink with what was emitted into it.
    pub fn into_output(self) -> (output: TextOutput)
        ensures
            output@ == self.state().lines,
    {
        self.output
    }

    /// Writes one instruction with two operands.
    fn emit(&mut self, mnemonic: &str, source: &str, destination: &str)
        requires
            old(self).wf(),
        ensures
            final(self).wf(),
            final(self).state() == (GeneratorView {
                lines: old(self).state().lines.push(x86_line(mnemonic@, source@, destination@)),
                free: old(self).state().free,
            }),
    {
        let mut line = mnemonic.to_owned();
        push_text(&mut line, source);
        push_text(&mut line, ", ");
        push_text(&mut line, destination);
        self.output.writeln(line.as_str());
    }
}

impl CodeGen for X86Generator {
    closed spec fn state(&self) -> GeneratorView {
        GeneratorView { lines: self.output@, free: self.registers@ }
    }

    closed spec fn wf(&self) -> bool {
        self.registers.target() == RegistersType::X86
    }

    open spec fn pre_amble(g: GeneratorView) -> Emitted<()> {
        Emitted {
            state: GeneratorView { lines: g.lines + x86_pre_amble(), free: all_free() },
            result: Ok(()),
        }
    }

    open spec fn post_amble(g: GeneratorView) -> Emitted<()> {
        Emitted {
            state: GeneratorView { lines: g.lines + x86_post_amble(), free: g.free },
            result: Ok(()),
        }
    }

    /// The lowest free register is taken and loaded; without a free register
    /// nothing is emitted.
    open spec fn load(g: GeneratorView, operand: Seq<char>) -> Emitted<usize> {
        match first_free(g.free) {
            Some(reg) => Emitted {
                state: GeneratorView {
                    lines: g.lines.push(x86_load(operand, reg)),
                    free: allocate(g.free).0,
                },
                result: Ok(reg),
            },
            None => Emitted {
                state: g,
                result: Err(ErrorView::CodeGeneratorError(no_registers_message())),
            },
        }
    }

    /// The sum is in `reg2`; `reg1` is freed.
    open spec fn add(g: GeneratorView, reg1: usize, reg2: usize) -> Emitted<usize> {
        operation(g, Operations::OpIntAdd, reg1, reg2)
    }

    /// The difference is in `reg1`; `reg2` is freed.
    open spec fn sub(g: GeneratorView, reg1: usize, reg2: usize) -> Emitted<usize> {
        operation(g, Operations::OpIntMinus, reg1, reg2)
    }

    /// The product is in `reg2`; `reg1` is freed.
    open spec fn mul(g: GeneratorView, reg1: usize, reg2: usize) -> Emitted<usize> {
        operation(g, Operations::OpIntMul, reg1, reg2)
    }

    /// The quotient is in `reg1`; `reg2`, the divisor's register, is freed.
    open spec fn div(g: GeneratorView, reg1: usize, reg2: usize) -> Emitted<usize> {
        operation(g, Operations::OpIntDiv, reg1, reg2)
    }

    /// The register is freed.
    open spec fn printreg(g: GeneratorView, reg: usize) -> Emitted<()> {
        Emitted { state: emit_and_free(g, texts(print_instrs(reg)), reg), result: Ok(()) }
    }

    fn cg_pre_amble(&mut self) -> (r: Result<(), CompilerErrorKind>) {
        self.registers.init_registers();

        self.output.writeln(".text");
        self.output.writeln(".LC0:");
        self.output.writeln("\t.string\t\"%d\\n\"");
        self.output.writeln("printint:");
        self.output.writeln("\tpushq\t%rbp");
        self.output.writeln("\tmovq\t%rsp, %rbp");
        self.output.writeln("\tsubq\t$16, %rsp");
        self.output.writeln("\tmovl\t%edi, -4(%rbp)");
        self.output.writeln("\tmovl\t-4(%rbp), %eax");
        self.output.writeln("\tmovl\t%eax, %esi");
        self.output.writeln("\tleaq\t.LC0(%rip), %rdi");
        self.output.writeln("\tmovl\t$0, %eax");
        self.output.writeln("\tcall\tprintf@PLT");
        self.output.writeln("\tnop");
        self.output.writeln("\tleave");
        self.output.writeln("\tret");
        self.output.writeln("");
        self.output.writeln(".globl\tmain");
        self.output.writeln(".type\tmain, @function");
        self.output.writeln("main:");
        self.output.writeln("\tpushq\t%rbp");
        self.output.writeln("\tmovq\t%rsp, %rbp");
        assert(self.output@ =~= old(self).output@ + x86_pre_amble());

        Ok(())
    }

    fn cg_post_amble(&mut self) -> (r: Result<(), CompilerErrorKind>) {
        self.output.writeln("\tmovl\t$0, %eax");
        self.output.writeln("\tpopq\t$rbp");
        self.output.writeln("\tret");
        assert(self.output@ =~= old(self).output@ + x86_post_amble());

        Ok(())
    }

    fn cg_load<L: RegLoadable>(&mut self, value: L) -> (r: Result<usize, CompilerErrorKind>) {
        proof {
            self.registers.lemma_four_slots();
        }
        let reg = match self.registers.allocate_register() {
            Ok(reg) => reg,
            Err(e) => {
                return Err(e);
            },
        };

        let operand = value.to_gnu_x86();
        let name = self.registers.register_name(reg);
        self.emit("\tmovq\t", operand.as_str(), name);

        Ok(reg)
    }

    fn cg_add(&mut self, reg1: usize, reg2: usize) -> (r: Result<usize, CompilerErrorKind>) {
        let source = self.registers.register_name(reg1);
        let destination = self.registers.register_name(reg2);
        self.emit("\taddq\t", source, destination);
        self.registers.free_register(reg1);
        assert(self.output@ =~= old(self).output@ + texts(
            operation_instrs(Operations::OpIntAdd, reg1, reg2),
        ));

        Ok(reg2)
    }

    fn cg_sub(&mut self, reg1: usize, reg2: usize) -> (r: Result<usize, CompilerErrorKind>) {
        let source = self.registers.register_name(reg2);
        let destination = self.registers.register_name(reg1);
        self.emit("\tsubq\t", source, destination);
        self.registers.free_register(reg2);
        assert(self.output@ =~= old(self).output@ + texts(
            operation_instrs(Operations::OpIntMinus, reg1, reg2),
        ));

        Ok(reg1)
    }

    fn cg_mul(&mut self, reg1: usize, reg2: usize) -> (r: Result<usize, CompilerErrorKind>) {
        let source = self.registers.register_name(reg1);
        let destination = self.registers.register_name(reg2);
        self.emit("\timulq\t", source, destination);
        self.registers.free_register(reg1);
        assert(self.output@ =~= old(self).output@ + texts(
            operation_instrs(Operations::OpIntMul, reg1, reg2),
        ));

        Ok(reg2)
    }

    fn cg_div(&mut self, reg1: usize, reg2: usize) -> (r: Result<usize, CompilerErrorKind>) {
        let dividend = self.registers.register_name(reg1);
        let divisor = self.registers.register_name(reg2);
        self.emit("\tmovq\t", dividend, "%rax");
        self.output.writeln("\tcqo");
        let mut divide = "\tidivq\t".to_owned();
        push_text(&mut divide, divisor);
        self.output.writeln(divide.as_str());
        self.emit("\tmovq\t", "%rax", dividend);
        self.registers.free_register(reg2);
        assert(self.output@ =~= old(self).output@ + texts(
            operation_instrs(Operations::OpIntDiv, reg1, reg2),
        ));

        Ok(reg1)
    }

    fn cg_printreg(&mut self, reg: usize) -> (r: Result<(), CompilerErrorKind>) {
        let name = self.registers.register_name(reg);
        self.emit("\tmovq\t", name, "%rdi");
        self.output.writeln("\tcall\tprintint");

        self.registers.free_register(reg);
        assert(self.output@ =~= old(self).output@ + texts(print_instrs(reg)));
        Ok(())
    }
}

} // verus!
