//! Interrupts as the kernel hands them to its handlers.

use vstd::prelude::*;

pub mod cpu_exceptions;
pub mod pic_interrupts;

verus! {

/// What the processor tells a handler about the interrupted code.
#[derive(Debug, Copy, Clone, PartialEq, Eq, Structural)]
pub struct InterruptArguments {
    /// Address of the instruction that was interrupted.
    pub instruction_pointer: u64,
    /// The flags register at that moment.
    pub cpu_flags: u64,
    /// The stack pointer at that moment.
    pub stack_pointer: u64,
}

impl InterruptArguments {
    /// The arguments with the given values.
    pub fn new(instruction_pointer: u64, cpu_flags: u64, stack_pointer: u64) -> (args: Self)
        ensures
            args == (InterruptArguments { instruction_pointer, cpu_flags, stack_pointer }),
    {
        Self { instruction_pointer, cpu_flags, stack_pointer }
    }

    /// Address of the instruction that was interrupted.
    pub fn instruction_pointer(&self) -> (value: u64)
        ensures
            value == self.instruction_pointer,
    {
        self.instruction_pointer
    }

    /// The flags register at that moment.
    pub fn cpu_flags(&self) -> (value: u64)
        ensures
            value == self.cpu_flags,
    {
        self.cpu_flags
    }

    /// The stack pointer at that moment.
    pub fn stack_pointer(&self) -> (value: u64)
        ensures
            value == self.stack_pointer,
    {
        self.stack_pointer
    }
}

} // verus!
