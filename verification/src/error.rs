//! Fatal conditions the engine can report. All of them end the current run:
//! the interpreter has no retry or degraded-mode semantics.

use vstd::prelude::*;

verus! {

/// A fatal error raised by the fetch-decode-execute engine.
#[derive(Clone, Copy, Debug, PartialEq, Eq, Structural)]
pub enum VmError {
    /// An instruction word matched no handler. Carries the raw instruction
    /// and the program counter it was fetched from, so the failure can be
    /// reproduced from the ROM alone.
    InvalidOpcode { instr: u16, pc: u16 },
    /// A register index outside 0..=15 was passed to the register file.
    /// Unreachable from the engine, whose operand fields are four bits wide,
    /// but checked defensively at the public register interface.
    InvalidRegister { reg: u8 },
    /// A subroutine call was attempted with the call stack already full.
    StackOverflow,
    /// A return was attempted with the call stack empty.
    StackUnderflow,
}

} // verus!
