//! The top-level interpreter: owns the engine and runs it in bounded
//! bursts, so a host can interleave key polling, timer ticks and rendering
//! between bursts.

use vstd::prelude::*;

use crate::cpu::{boot_state, run_spec, Cpu, RunExit};

verus! {

/// A booted machine ready to execute its loaded ROM.
pub struct Interpreter {
    /// The fetch-decode-execute engine with its state holders.
    pub cpu: Cpu,
}

impl Interpreter {
    /// Boot a machine with the given ROM loaded at the start of program
    /// space.
    pub fn new(rom: Vec<u8>) -> (it: Interpreter)
        requires
            rom@.len() <= 4096 - 0x200,
        ensures
            it.cpu.wf(),
            it.cpu@ == boot_state(rom@),
    {
        Interpreter { cpu: Cpu::new(rom) }
    }

    /// Run up to `fuel` engine cycles, stopping early at a halt request, at
    /// a key wait with no pending transition, and at the first fatal error.
    pub fn run(&mut self, fuel: u64) -> (r: RunExit)
        requires
            old(self).cpu.wf(),
        ensures
            final(self).cpu.wf(),
            exists|rnds: Seq<u8>|
                run_spec(old(self).cpu@, rnds, fuel as nat) == (final(self).cpu@, r),
    {
        self.cpu.run(fuel)
    }
}

} // verus!
