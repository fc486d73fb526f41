//! The register allocator: a fixed file of four registers.

use vstd::prelude::*;
use crate::common::errors::error::{CompilerErrorKind, ErrorView};

verus! {

/// The target whose register names a register file uses.
#[derive(Clone, Copy, Debug, PartialEq, Eq, Structural)]
pub enum RegistersType {
    X86,
    ARM,
}

/// The lowest free slot, if any slot is free (`true` means free).
pub open spec fn first_free(free: Seq<bool>) -> Option<usize> {
    if free[0] {
        Some(0)
    } else if free[1] {
        Some(1)
    } else if free[2] {
        Some(2)
    } else if free[3] {
        Some(3)
    } else {
        None
    }
}

/// How many slots of a file are free.
pub open spec fn free_count(free: Seq<bool>) -> nat {
    let one = |slot: int| -> nat {
        if free[slot] {
            1nat
        } else {
            0nat
        }
    };
    one(0) + one(1) + one(2) + one(3)
}

/// A register file in which every slot is free.
pub open spec fn all_free() -> Seq<bool> {
    seq![true, true, true, true]
}

/// The message of the error for an allocation from a full file.
pub open spec fn no_registers_message() -> Seq<char> {
    "No registers available"@
}

/// An allocation: the file afterwards, and the slot or the capacity error.
/// The lowest free slot is taken; a full file stays as it is.
pub open spec fn allocate(free: Seq<bool>) -> (Seq<bool>, Result<usize, ErrorView>) {
    match first_free(free) {
        Some(slot) => (free.update(slot as int, false), Ok(slot)),
        None => (free, Err(ErrorView::CodeGeneratorError(no_registers_message()))),
    }
}

/// The file after the slot `reg` was freed.
pub open spec fn release(free: Seq<bool>, reg: usize) -> Seq<bool> {
    free.update(reg as int, true)
}

/// The name of the register in slot `reg` on a target.
pub open spec fn register_text(reg_type: RegistersType, reg: usize) -> Seq<char> {
    match reg_type {
        RegistersType::X86 => if reg == 0 {
            "%r8"@
        } else if reg == 1 {
            "%r9"@
        } else if reg == 2 {
            "%r10"@
        } else {
            "%r11"@
        },
        RegistersType::ARM => if reg == 0 {
            "r0"@
        } else if reg == 1 {
            "r1"@
        } else if reg == 2 {
            "r2"@
        } else {
            "r3"@
        },
    }
}

/// From a file in which every slot is free, four allocations succeed and
/// give the slots 0, 1, 2 and 3 in this order; a fifth one, with no slot
/// freed in between, fails with the capacity error and leaves the file full.
pub proof fn lemma_four_allocations_then_full()
    ensures
        ({
            let first = allocate(all_free());
            let second = allocate(first.0);
            let third = allocate(second.0);
            let fourth = allocate(third.0);
            let fifth = allocate(fourth.0);
            &&& first.1 == Ok::<usize, ErrorView>(0)
            &&& second.1 == Ok::<usize, ErrorView>(1)
            &&& third.1 == Ok::<usize, ErrorView>(2)
            &&& fourth.1 == Ok::<usize, ErrorView>(3)
            &&& fifth.1 == Err::<usize, ErrorView>(
                ErrorView::CodeGeneratorError(no_registers_message()),
            )
            &&& fifth.0 == fourth.0
        }),
{
}

/// After a slot was freed, the next allocation succeeds and gives that slot
/// or a lower one; it gives that slot if no lower one is free, as when the
/// file was full.
pub proof fn lemma_freed_slot_is_reused(free: Seq<bool>, reg: usize)
    requires
        free.len() == 4,
        reg < 4,
    ensures
        allocate(release(free, reg)).1 matches Ok(slot) && slot <= reg,
        (forall|lower: int| 0 <= lower < reg ==> !free[lower]) ==> allocate(release(free, reg)).1
            == Ok::<usize, ErrorView>(reg),
        first_free(free) is None ==> allocate(release(free, reg)).0 == free,
{
}

/// A fixed file of four registers, each either free or allocated.
pub struct Registers {
    avail: [bool; 4],
    reg_type: RegistersType,
}

impl View for Registers {
    type V = Seq<bool>;

    /// Which slots are free.
    closed spec fn view(&self) -> Seq<bool> {
        self.avail@
    }
}

impl Registers {
    /// The target whose names this file uses.
    pub closed spec fn target(&self) -> RegistersType {
        self.reg_type
    }

    /// A file has four slots.
    pub proof fn lemma_four_slots(&self)
        ensures
            self@.len() == 4,
    {
    }

    /// A file for the target `reg_type` in which every slot is free.
    pub fn new(reg_type: RegistersType) -> (registers: Registers)
        ensures
            registers@ == all_free(),
            registers.target() == reg_type,
    {
        let registers = Self { avail: [true, true, true, true], reg_type };
        registers
    }

    /// Frees every slot.
    pub fn init_registers(&mut self)
        ensures
            final(self)@ == all_free(),
            final(self).target() == old(self).target(),
    {
        let mut i: usize = 0;
        while i < 4
            invariant
                i <= 4,
                self.reg_type == old(self).reg_type,
                forall|j: int| 0 <= j < i ==> self.avail@[j],
            decreases 4 - i,
        {
            self.avail[i] = true;
            i += 1;
        }
    }

    /// Takes the lowest free slot; a full file gives the capacity error.
    pub fn allocate_register(&mut self) -> (r: Result<usize, CompilerErrorKind>)
        ensures
            final(self).target() == old(self).target(),
            allocate(old(self)@) == (final(self)@, crate::common::errors::error::plain_result_view(r)),
    {
        let mut i: usize = 0;
        while i < 4
            invariant
                i <= 4,
                self.avail == old(self).avail,
                self.reg_type == old(self).reg_type,
                forall|j: int| 0 <= j < i ==> !self.avail@[j],
            decreases 4 - i,
        {
            if self.avail[i] {
                self.avail[i] = false;
                return Ok(i);
            }
            i += 1;
        }
        Err(CompilerErrorKind::CodeGeneratorError("No registers available".to_owned()))
    }

    /// Frees the slot `reg`, whether it was allocated or not.
    pub fn free_register(&mut self, reg: usize)
        requires
            reg < 4,
        ensures
            final(self)@ == release(old(self)@, reg),
            final(self).target() == old(self).target(),
    {
        self.avail[reg] = true;
    }

    /// The name of the register in slot `reg`.
    pub fn register_name(&self, reg: usize) -> (name: &'static str)
        requires
            reg < 4,
        ensures
            name@ == register_text(self.target(), reg),
    {
        match self.reg_type {
            RegistersType::X86 => if reg == 0 {
                "%r8"
            } else if reg == 1 {
                "%r9"
            } else if reg == 2 {
                "%r10"
            } else {
                "%r11"
            },
            RegistersType::ARM => if reg == 0 {
                "r0"
            } else if reg == 1 {
                "r1"
            } else if reg == 2 {
                "r2"
            } else {
                "r3"
            },
        }
    }
}

} // verus!
