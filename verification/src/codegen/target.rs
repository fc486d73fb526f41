//! What a target of the code generator offers.

use vstd::prelude::*;
use crate::common::errors::error::{plain_result_view, CompilerErrorKind, ErrorView};
use crate::utils::text::{push_signed_decimal, signed_decimal};

verus! {

/// A value that can be written as the source operand of a load.
pub trait RegLoadable {
    /// The operand in the syntax of the GNU assembler for x86.
    spec fn gnu_x86_text(&self) -> Seq<char>;

    /// The operand in the syntax of the GNU assembler for x86.
    fn to_gnu_x86(&self) -> (text: String)
        ensures
            text@ == self.gnu_x86_text(),
    ;
}

impl RegLoadable for i64 {
    /// An immediate: a dollar sign and the decimal numeral.
    open spec fn gnu_x86_text(&self) -> Seq<char> {
        seq!['$'] + signed_decimal(*self as int)
    }

    fn to_gnu_x86(&self) -> (text: String) {
        let mut text = String::new();
        text.push('$');
        push_signed_decimal(&mut text, *self);
        text
    }
}

/// What a generator is: the lines it has emitted, and which of its four
/// registers are free.
pub struct GeneratorView {
    pub lines: Seq<Seq<char>>,
    pub free: Seq<bool>,
}

/// One step of a generator: the generator afterwards, and what the step gave.
pub struct Emitted<T> {
    pub state: GeneratorView,
    pub result: Result<T, ErrorView>,
}

/// A target: it emits the code of each operation and keeps the registers.
/// What each operation does is a function of the generator's state, which
/// the target states; a register is a slot below 4.
pub trait CodeGen {
    /// The lines emitted so far and the free registers.
    spec fn state(&self) -> GeneratorView;

    /// The generator can be used.
    spec fn wf(&self) -> bool;

    /// What `cg_pre_amble` does.
    spec fn pre_amble(g: GeneratorView) -> Emitted<()>;

    /// What `cg_post_amble` does.
    spec fn post_amble(g: GeneratorView) -> Emitted<()>;

    /// What `cg_load` does for a value that is written as `operand`.
    spec fn load(g: GeneratorView, operand: Seq<char>) -> Emitted<usize>;

    /// What `cg_add` does.
    spec fn add(g: GeneratorView, reg1: usize, reg2: usize) -> Emitted<usize>;

    /// What `cg_sub` does.
    spec fn sub(g: GeneratorView, reg1: usize, reg2: usize) -> Emitted<usize>;

    /// What `cg_mul` does.
    spec fn mul(g: GeneratorView, reg1: usize, reg2: usize) -> Emitted<usize>;

    /// What `cg_div` does.
    spec fn div(g: GeneratorView, reg1: usize, reg2: usize) -> Emitted<usize>;

    /// What `cg_printreg` does.
    spec fn printreg(g: GeneratorView, reg: usize) -> Emitted<()>;

    /// Emits what stands before the program's code, and frees every register.
    fn cg_pre_amble(&mut self) -> (r: Result<(), CompilerErrorKind>)
        requires
            old(self).wf(),
        ensures
            final(self).wf(),
            Self::pre_amble(old(self).state()) == (Emitted {
                state: final(self).state(),
                result: plain_result_view(r),
            }),
    ;

    /// Emits what stands behind the program's code.
    fn cg_post_amble(&mut self) -> (r: Result<(), CompilerErrorKind>)
        requires
            old(self).wf(),
        ensures
            final(self).wf(),
            Self::post_amble(old(self).state()) == (Emitted {
                state: final(self).state(),
                result: plain_result_view(r),
            }),
    ;

    /// Allocates a register and emits the load of `value` into it.
    fn cg_load<L: RegLoadable>(&mut self, value: L) -> (r: Result<usize, CompilerErrorKind>)
        requires
            old(self).wf(),
        ensures
            final(self).wf(),
            Self::load(old(self).state(), value.gnu_x86_text()) == (Emitted {
                state: final(self).state(),
                result: plain_result_view(r),
            }),
            r matches Ok(reg) ==> reg < 4,
    ;

    /// Emits the addition of two registers; the result is in the register
    /// returned, and the other one is freed.
    fn cg_add(&mut self, reg1: usize, reg2: usize) -> (r: Result<usize, CompilerErrorKind>)
        requires
            old(self).wf(),
            reg1 < 4,
            reg2 < 4,
        ensures
            final(self).wf(),
            Self::add(old(self).state(), reg1, reg2) == (Emitted {
                state: final(self).state(),
                result: plain_result_view(r),
            }),
            r matches Ok(reg) ==> reg < 4,
    ;

    /// Emits the subtraction of the second register from the first; the
    /// result is in the register returned, and the other one is freed.
    fn cg_sub(&mut self, reg1: usize, reg2: usize) -> (r: Result<usize, CompilerErrorKind>)
        requires
            old(self).wf(),
            reg1 < 4,
            reg2 < 4,
        ensures
            final(self).wf(),
            Self::sub(old(self).state(), reg1, reg2) == (Emitted {
                state: final(self).state(),
                result: plain_result_view(r),
            }),
            r matches Ok(reg) ==> reg < 4,
    ;

    /// Emits the multiplication of two registers; the result is in the
    /// register returned, and the other one is freed.
    fn cg_mul(&mut self, reg1: usize, reg2: usize) -> (r: Result<usize, CompilerErrorKind>)
        requires
            old(self).wf(),
            reg1 < 4,
            reg2 < 4,
        ensures
            final(self).wf(),
            Self::mul(old(self).state(), reg1, reg2) == (Emitted {
                state: final(self).state(),
                result: plain_result_view(r),
            }),
            r matches Ok(reg) ==> reg < 4,
    ;

    /// Emits the division of the first register by the second; the result is
    /// in the register returned, and the other one is freed.
    fn cg_div(&mut self, reg1: usize, reg2: usize) -> (r: Result<usize, CompilerErrorKind>)
        requires
            old(self).wf(),
            reg1 < 4,
            reg2 < 4,
        ensures
            final(self).wf(),
            Self::div(old(self).state(), reg1, reg2) == (Emitted {
                state: final(self).state(),
                result: plain_result_view(r),
            }),
            r matches Ok(reg) ==> reg < 4,
    ;

    /// Emits the printing of a register, and frees it.
    fn cg_printreg(&mut self, reg: usize) -> (r: Result<(), CompilerErrorKind>)
        requires
            old(self).wf(),
            reg < 4,
        ensures
            final(self).wf(),
            Self::printreg(old(self).state(), reg) == (Emitted {
                state: final(self).state(),
                result: plain_result_view(r),
            }),
    ;
}

} // verus!
