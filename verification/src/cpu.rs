//! The fetch-decode-execute engine and its mathematical model.
//!
//! Each cycle fetches the big-endian word at the program counter, decodes it
//! into an [`Instr`], and executes it against the machine state. Dispatch is
//! total: every 16-bit word either decodes to exactly one instruction or is
//! rejected as [`VmError::InvalidOpcode`]. The engine's observable behaviour
//! is pinned down by the spec-level interpreter [`step_spec`], which the
//! executable engine is proved to implement.
//!
//! Documented policy choices, where interpreter dialects historically differ:
//! - The shift instructions read their operand from VX and ignore VY.
//! - The subtract instructions set the flag to 1 exactly when the minuend is
//!   greater than or equal to the subtrahend (the no-borrow convention).
//! - Every computed address — program counter, address register, and their
//!   offsets — wraps modulo 4096 into the 12-bit address space.
//! - The call stack holds 16 return addresses: a call pushes the address of
//!   the instruction after itself, and a return pops it into the program
//!   counter.
//! - Timers are not ticked by instruction execution: a host drives
//!   [`Cpu::tick_timers`] from its own fixed-rate clock, decoupled from
//!   instruction throughput.
//! - While the engine waits for a key, instructions are suspended but timer
//!   ticks from the host still apply.

use vstd::prelude::*;

use crate::error::VmError;
use crate::graphics::{blank_display, draw_sprite, Graphics};
use crate::input::{initial_input, key_pressed, Input, InputView};
use crate::memory::{boot_ram, Memory, END_RESERVED};

verus! {

/// A decoded instruction. Field names follow the conventional operand
/// layout: `x` and `y` are register indices, `nn` an immediate byte, `nnn` a
/// 12-bit address, `n` a 4-bit count.
#[derive(Clone, Copy, Debug, PartialEq, Eq, Structural)]
pub enum Instr {
    /// Clear the screen.
    Cls,
    /// Return from a subroutine: pop the call stack into the program counter.
    Ret,
    /// Jump to `nnn`.
    Jump { nnn: u16 },
    /// Call the subroutine at `nnn`, pushing the return address.
    Call { nnn: u16 },
    /// Skip the next instruction if VX equals `nn`.
    SkipEqImm { x: u8, nn: u8 },
    /// Skip the next instruction if VX differs from `nn`.
    SkipNeImm { x: u8, nn: u8 },
    /// Skip the next instruction if VX equals VY.
    SkipEqReg { x: u8, y: u8 },
    /// VX = `nn`.
    LoadImm { x: u8, nn: u8 },
    /// VX = (VX + `nn`) mod 256; the flag register is not touched.
    AddImm { x: u8, nn: u8 },
    /// VX = VY.
    Assign { x: u8, y: u8 },
    /// VX = VX | VY.
    Or { x: u8, y: u8 },
    /// VX = VX & VY.
    And { x: u8, y: u8 },
    /// VX = VX ^ VY.
    Xor { x: u8, y: u8 },
    /// VX = (VX + VY) mod 256, with VF = 1 exactly when the sum exceeds 255.
    Add { x: u8, y: u8 },
    /// VX = (VX - VY) mod 256, with VF = 1 exactly when VX >= VY.
    Sub { x: u8, y: u8 },
    /// VF = the low bit of VX, then VX = VX / 2. Reads VX, never VY.
    ShiftRight { x: u8 },
    /// VX = (VY - VX) mod 256, with VF = 1 exactly when VY >= VX.
    SubNeg { x: u8, y: u8 },
    /// VF = the high bit of VX, then VX = (VX * 2) mod 256. Reads VX only.
    ShiftLeft { x: u8 },
    /// Skip the next instruction if VX differs from VY.
    SkipNeReg { x: u8, y: u8 },
    /// I = `nnn`.
    LoadAddr { nnn: u16 },
    /// Jump to (`nnn` + V0) mod 4096.
    JumpOffset { nnn: u16 },
    /// VX = a uniformly random byte AND `nn`.
    Random { x: u8, nn: u8 },
    /// Draw the `n`-row sprite at address I at coordinates (VX, VY); VF
    /// becomes the collision flag.
    Draw { x: u8, y: u8, n: u8 },
    /// Skip the next instruction if the key with id VX is pressed.
    SkipKey { x: u8 },
    /// Skip the next instruction if the key with id VX is not pressed.
    SkipNoKey { x: u8 },
    /// VX = delay timer.
    GetDelay { x: u8 },
    /// Suspend execution until a key transition arrives; VX = that key's id.
    WaitKey { x: u8 },
    /// Delay timer = VX.
    SetDelay { x: u8 },
    /// Sound timer = VX.
    SetSound { x: u8 },
    /// I = (I + VX) mod 4096.
    AddAddr { x: u8 },
    /// I = the glyph-table address of the hex digit in VX.
    FontAddr { x: u8 },
    /// Write the decimal digits of VX (hundreds, tens, ones) to I, I+1, I+2.
    StoreBcd { x: u8 },
    /// Write V0..=VX to memory starting at I.
    StoreRegs { x: u8 },
    /// Fill V0..=VX from memory starting at I.
    LoadRegs { x: u8 },
}

/// Every operand field of a decoded instruction is within its width.
pub open spec fn instr_wf(ins: Instr) -> bool {
    match ins {
        Instr::Cls => true,
        Instr::Ret => true,
        Instr::Jump { nnn } => nnn < 4096,
        Instr::Call { nnn } => nnn < 4096,
        Instr::SkipEqImm { x, nn } => x < 16,
        Instr::SkipNeImm { x, nn } => x < 16,
        Instr::SkipEqReg { x, y } => x < 16 && y < 16,
        Instr::LoadImm { x, nn } => x < 16,
        Instr::AddImm { x, nn } => x < 16,
        Instr::Assign { x, y } => x < 16 && y < 16,
        Instr::Or { x, y } => x < 16 && y < 16,
        Instr::And { x, y } => x < 16 && y < 16,
        Instr::Xor { x, y } => x < 16 && y < 16,
        Instr::Add { x, y } => x < 16 && y < 16,
        Instr::Sub { x, y } => x < 16 && y < 16,
        Instr::ShiftRight { x } => x < 16,
        Instr::SubNeg { x, y } => x < 16 && y < 16,
        Instr::ShiftLeft { x } => x < 16,
        Instr::SkipNeReg { x, y } => x < 16 && y < 16,
        Instr::LoadAddr { nnn } => nnn < 4096,
        Instr::JumpOffset { nnn } => nnn < 4096,
        Instr::Random { x, nn } => x < 16,
        Instr::Draw { x, y, n } => x < 16 && y < 16 && n < 16,
        Instr::SkipKey { x } => x < 16,
        Instr::SkipNoKey { x } => x < 16,
        Instr::GetDelay { x } => x < 16,
        Instr::WaitKey { x } => x < 16,
        Instr::SetDelay { x } => x < 16,
        Instr::SetSound { x } => x < 16,
        Instr::AddAddr { x } => x < 16,
        Instr::FontAddr { x } => x < 16,
        Instr::StoreBcd { x } => x < 16,
        Instr::StoreRegs { x } => x < 16,
        Instr::LoadRegs { x } => x < 16,
    }
}

/// Total decoding of a 16-bit word: every word maps to exactly one
/// instruction or to `None`, which the engine reports as `InvalidOpcode`.
/// Machine-code routines (words with a zero top nibble other than the clear
/// and return forms) are deliberately not implemented.
pub open spec fn decode_spec(instr: u16) -> Option<Instr> {
    let op = instr / 0x1000;
    let x = ((instr / 0x100) % 0x10) as u8;
    let y = ((instr / 0x10) % 0x10) as u8;
    let n = (instr % 0x10) as u8;
    let nn = (instr % 0x100) as u8;
    let nnn = (instr % 0x1000) as u16;
    if op == 0x0 {
        if nn == 0xE0 {
            Some(Instr::Cls)
        } else if nn == 0xEE {
            Some(Instr::Ret)
        } else {
            None
        }
    } else if op == 0x1 {
        Some(Instr::Jump { nnn })
    } else if op == 0x2 {
        Some(Instr::Call { nnn })
    } else if op == 0x3 {
        Some(Instr::SkipEqImm { x, nn })
    } else if op == 0x4 {
        Some(Instr::SkipNeImm { x, nn })
    } else if op == 0x5 {
        Some(Instr::SkipEqReg { x, y })
    } else if op == 0x6 {
        Some(Instr::LoadImm { x, nn })
    } else if op == 0x7 {
        Some(Instr::AddImm { x, nn })
    } else if op == 0x8 {
        if n == 0x0 {
            Some(Instr::Assign { x, y })
        } else if n == 0x1 {
            Some(Instr::Or { x, y })
        } else if n == 0x2 {
            Some(Instr::And { x, y })
        } else if n == 0x3 {
            Some(Instr::Xor { x, y })
        } else if n == 0x4 {
            Some(Instr::Add { x, y })
        } else if n == 0x5 {
            Some(Instr::Sub { x, y })
        } else if n == 0x6 {
            Some(Instr::ShiftRight { x })
        } else if n == 0x7 {
            Some(Instr::SubNeg { x, y })
        } else if n == 0xE {
            Some(Instr::ShiftLeft { x })
        } else {
            None
        }
    } else if op == 0x9 {
        Some(Instr::SkipNeReg { x, y })
    } else if op == 0xA {
        Some(Instr::LoadAddr { nnn })
    } else if op == 0xB {
        Some(Instr::JumpOffset { nnn })
    } else if op == 0xC {
        Some(Instr::Random { x, nn })
    } else if op == 0xD {
        Some(Instr::Draw { x, y, n })
    } else if op == 0xE {
        if nn == 0x9E {
            Some(Instr::SkipKey { x })
        } else if nn == 0xA1 {
            Some(Instr::SkipNoKey { x })
        } else {
            None
        }
    } else {
        if nn == 0x07 {
            Some(Instr::GetDelay { x })
        } else if nn == 0x0A {
            Some(Instr::WaitKey { x })
        } else if nn == 0x15 {
            Some(Instr::SetDelay { x })
        } else if nn == 0x18 {
            Some(Instr::SetSound { x })
        } else if nn == 0x1E {
            Some(Instr::AddAddr { x })
        } else if nn == 0x29 {
            Some(Instr::FontAddr { x })
        } else if nn == 0x33 {
            Some(Instr::StoreBcd { x })
        } else if nn == 0x55 {
            Some(Instr::StoreRegs { x })
        } else if nn == 0x65 {
            Some(Instr::LoadRegs { x })
        } else {
            None
        }
    }
}

/// Whatever a word decodes to has well-formed operand fields.
pub proof fn lemma_decode_wf(instr: u16)
    ensures
        decode_spec(instr) matches Some(ins) ==> instr_wf(ins),
{
}

/// Decode a 16-bit word. Total: there is no word this function rejects
/// other than by returning `None`, and the result is pinned to
/// [`decode_spec`] for every one of the 65536 possible words.
pub fn decode(instr: u16) -> (r: Option<Instr>)
    ensures
        r == decode_spec(instr),
{
    let op: u16 = instr / 0x1000;
    let x: u8 = ((instr / 0x100) % 0x10) as u8;
    let y: u8 = ((instr / 0x10) % 0x10) as u8;
    let n: u8 = (instr % 0x10) as u8;
    let nn: u8 = (instr % 0x100) as u8;
    let nnn: u16 = instr % 0x1000;
    if op == 0x0 {
        if nn == 0xE0 {
            Some(Instr::Cls)
        } else if nn == 0xEE {
            Some(Instr::Ret)
        } else {
            None
        }
    } else if op == 0x1 {
        Some(Instr::Jump { nnn })
    } else if op == 0x2 {
        Some(Instr::Call { nnn })
    } else if op == 0x3 {
        Some(Instr::SkipEqImm { x, nn })
    } else if op == 0x4 {
        Some(Instr::SkipNeImm { x, nn })
    } else if op == 0x5 {
        Some(Instr::SkipEqReg { x, y })
    } else if op == 0x6 {
        Some(Instr::LoadImm { x, nn })
    } else if op == 0x7 {
        Some(Instr::AddImm { x, nn })
    } else if op == 0x8 {
        if n == 0x0 {
            Some(Instr::Assign { x, y })
        } else if n == 0x1 {
            Some(Instr::Or { x, y })
        } else if n == 0x2 {
            Some(Instr::And { x, y })
        } else if n == 0x3 {
            Some(Instr::Xor { x, y })
        } else if n == 0x4 {
            Some(Instr::Add { x, y })
        } else if n == 0x5 {
            Some(Instr::Sub { x, y })
        } else if n == 0x6 {
            Some(Instr::ShiftRight { x })
        } else if n == 0x7 {
            Some(Instr::SubNeg { x, y })
        } else if n == 0xE {
            Some(Instr::ShiftLeft { x })
        } else {
            None
        }
    } else if op == 0x9 {
        Some(Instr::SkipNeReg { x, y })
    } else if op == 0xA {
        Some(Instr::LoadAddr { nnn })
    } else if op == 0xB {
        Some(Instr::JumpOffset { nnn })
    } else if op == 0xC {
        Some(Instr::Random { x, nn })
    } else if op == 0xD {
        Some(Instr::Draw { x, y, n })
    } else if op == 0xE {
        if nn == 0x9E {
            Some(Instr::SkipKey { x })
        } else if nn == 0xA1 {
            Some(Instr::SkipNoKey { x })
        } else {
            None
        }
    } else {
        if nn == 0x07 {
            Some(Instr::GetDelay { x })
        } else if nn == 0x0A {
            Some(Instr::WaitKey { x })
        } else if nn == 0x15 {
            Some(Instr::SetDelay { x })
        } else if nn == 0x18 {
            Some(Instr::SetSound { x })
        } else if nn == 0x1E {
            Some(Instr::AddAddr { x })
        } else if nn == 0x29 {
            Some(Instr::FontAddr { x })
        } else if nn == 0x33 {
            Some(Instr::StoreBcd { x })
        } else if nn == 0x55 {
            Some(Instr::StoreRegs { x })
        } else if nn == 0x65 {
            Some(Instr::LoadRegs { x })
        } else {
            None
        }
    }
}

/// The mathematical state of the whole machine.
#[verifier::ext_equal]
pub struct VmState {
    /// The 4096 bytes of memory.
    pub ram: Seq<u8>,
    /// The 2048 bit-valued display pixels, row-major.
    pub disp: Seq<u8>,
    /// The input latch.
    pub input: InputView,
    /// The sixteen general-purpose registers; index 15 is the flag register.
    pub v: Seq<u8>,
    /// The address register I.
    pub i: u16,
    /// The program counter.
    pub pc: u16,
    /// The call stack, holding return addresses below `sp`.
    pub stack: Seq<u16>,
    /// The stack pointer: number of live entries on the call stack.
    pub sp: u8,
    /// The delay timer.
    pub dt: u8,
    /// The sound timer; the tone is active exactly while it is nonzero.
    pub st: u8,
    /// When `Some(x)`, execution is suspended until a key transition
    /// arrives, whose id will be stored in VX.
    pub waiting: Option<u8>,
}

impl VmState {
    /// Structural invariants of the machine state, established at boot and
    /// preserved by every step.
    pub open spec fn wf(self) -> bool {
        &&& self.ram.len() == 4096
        &&& self.disp.len() == 2048
        &&& (forall|p: int| 0 <= p < 2048 ==> self.disp[p] <= 1)
        &&& self.input.keys.len() == 16
        &&& self.input.last < 16
        &&& self.v.len() == 16
        &&& self.stack.len() == 16
        &&& (forall|k: int| 0 <= k < 16 ==> self.stack[k] < 4096)
        &&& self.sp <= 16
        &&& self.pc < 4096
        &&& self.i < 4096
        &&& (self.waiting matches Some(x) ==> x < 16)
    }
}

/// The machine state at boot: ROM loaded, glyph table written, display
/// dark, all registers zero, program counter at the start of program space.
pub open spec fn boot_state(rom: Seq<u8>) -> VmState {
    VmState {
        ram: boot_ram(rom),
        disp: blank_display(),
        input: initial_input(),
        v: Seq::new(16, |k: int| 0u8),
        i: 0,
        pc: 0x200,
        stack: Seq::new(16, |k: int| 0u16),
        sp: 0,
        dt: 0,
        st: 0,
        waiting: None,
    }
}

/// The program counter advanced past the current instruction, wrapped into
/// the 12-bit address space.
pub open spec fn next_pc(pc: u16) -> u16 {
    ((pc + 2) % 4096) as u16
}

/// The program counter after a conditional skip: past the next instruction
/// when the condition holds, past the current one otherwise.
pub open spec fn skip_pc(pc: u16, cond: bool) -> u16 {
    if cond {
        ((pc + 4) % 4096) as u16
    } else {
        next_pc(pc)
    }
}

/// The big-endian instruction word at the program counter.
pub open spec fn fetch_word(s: VmState) -> u16 {
    (s.ram[s.pc as int] * 256 + s.ram[(s.pc + 1) % 4096]) as u16
}

/// Memory after writing V0..=V(n-1) to consecutive addresses from `i`,
/// each address wrapped into the 12-bit space.
pub open spec fn store_regs(ram: Seq<u8>, v: Seq<u8>, i: int, n: int) -> Seq<u8>
    decreases n,
{
    if n <= 0 {
        ram
    } else {
        store_regs(ram, v, i, n - 1).update((i + (n - 1)) % 4096, v[n - 1])
    }
}

/// The effect of one decoded instruction on the machine state. `rnd` is the
/// byte drawn by the random-number instruction and is ignored by every
/// other instruction.
pub open spec fn exec_spec(s: VmState, ins: Instr, rnd: u8) -> Result<VmState, VmError> {
    match ins {
        Instr::Cls => Ok(VmState { disp: blank_display(), pc: next_pc(s.pc), ..s }),
        Instr::Ret => {
            if s.sp == 0 {
                Err(VmError::StackUnderflow)
            } else {
                Ok(
                    VmState {
                        pc: s.stack[s.sp - 1],
                        stack: s.stack.update(s.sp - 1, 0),
                        sp: (s.sp - 1) as u8,
                        ..s
                    },
                )
            }
        },
        Instr::Jump { nnn } => Ok(VmState { pc: nnn, ..s }),
        Instr::Call { nnn } => {
            if s.sp >= 16 {
                Err(VmError::StackOverflow)
            } else {
                Ok(
                    VmState {
                        stack: s.stack.update(s.sp as int, next_pc(s.pc)),
                        sp: (s.sp + 1) as u8,
                        pc: nnn,
                        ..s
                    },
                )
            }
        },
        Instr::SkipEqImm { x, nn } => Ok(
            VmState { pc: skip_pc(s.pc, s.v[x as int] == nn), ..s },
        ),
        Instr::SkipNeImm { x, nn } => Ok(
            VmState { pc: skip_pc(s.pc, s.v[x as int] != nn), ..s },
        ),
        Instr::SkipEqReg { x, y } => Ok(
            VmState { pc: skip_pc(s.pc, s.v[x as int] == s.v[y as int]), ..s },
        ),
        Instr::LoadImm { x, nn } => Ok(
            VmState { v: s.v.update(x as int, nn), pc: next_pc(s.pc), ..s },
        ),
        Instr::AddImm { x, nn } => Ok(
            VmState {
                v: s.v.update(x as int, ((s.v[x as int] + nn) % 256) as u8),
                pc: next_pc(s.pc),
                ..s
            },
        ),
        Instr::Assign { x, y } => Ok(
            VmState { v: s.v.update(x as int, s.v[y as int]), pc: next_pc(s.pc), ..s },
        ),
        Instr::Or { x, y } => Ok(
            VmState {
                v: s.v.update(x as int, s.v[x as int] | s.v[y as int]),
                pc: next_pc(s.pc),
                ..s
            },
        ),
        Instr::And { x, y } => Ok(
            VmState {
                v: s.v.update(x as int, s.v[x as int] & s.v[y as int]),
                pc: next_pc(s.pc),
                ..s
            },
        ),
        Instr::Xor { x, y } => Ok(
            VmState {
                v: s.v.update(x as int, s.v[x as int] ^ s.v[y as int]),
                pc: next_pc(s.pc),
                ..s
            },
        ),
        Instr::Add { x, y } => {
            let sum = s.v[x as int] + s.v[y as int];
            let flag: u8 = if sum > 255 {
                1
            } else {
                0
            };
            Ok(
                VmState {
                    v: s.v.update(15, flag).update(x as int, (sum % 256) as u8),
                    pc: next_pc(s.pc),
                    ..s
                },
            )
        },
        Instr::Sub { x, y } => {
            let flag: u8 = if s.v[x as int] >= s.v[y as int] {
                1
            } else {
                0
            };
            let diff = (s.v[x as int] + 256 - s.v[y as int]) % 256;
            Ok(
                VmState {
                    v: s.v.update(15, flag).update(x as int, diff as u8),
                    pc: next_pc(s.pc),
                    ..s
                },
            )
        },
        Instr::ShiftRight { x } => {
            let low: u8 = (s.v[x as int] % 2) as u8;
            Ok(
                VmState {
                    v: s.v.update(15, low).update(x as int, (s.v[x as int] / 2) as u8),
                    pc: next_pc(s.pc),
                    ..s
                },
            )
        },
        Instr::SubNeg { x, y } => {
            let flag: u8 = if s.v[y as int] >= s.v[x as int] {
                1
            } else {
                0
            };
            let diff = (s.v[y as int] + 256 - s.v[x as int]) % 256;
            Ok(
                VmState {
                    v: s.v.update(15, flag).update(x as int, diff as u8),
                    pc: next_pc(s.pc),
                    ..s
                },
            )
        },
        Instr::ShiftLeft { x } => {
            let high: u8 = (s.v[x as int] / 128) as u8;
            Ok(
                VmState {
                    v: s.v.update(15, high).update(x as int, ((s.v[x as int] * 2) % 256) as u8),
                    pc: next_pc(s.pc),
                    ..s
                },
            )
        },
        Instr::SkipNeReg { x, y } => Ok(
            VmState { pc: skip_pc(s.pc, s.v[x as int] != s.v[y as int]), ..s },
        ),
        Instr::LoadAddr { nnn } => Ok(VmState { i: nnn, pc: next_pc(s.pc), ..s }),
        Instr::JumpOffset { nnn } => Ok(VmState { pc: ((nnn + s.v[0]) % 4096) as u16, ..s }),
        Instr::Random { x, nn } => Ok(
            VmState { v: s.v.update(x as int, rnd & nn), pc: next_pc(s.pc), ..s },
        ),
        Instr::Draw { x, y, n } => {
            let sprite = Seq::new(n as nat, |k: int| s.ram[(s.i + k) % 4096]);
            let drawn = draw_sprite(s.disp, s.v[x as int] as int, s.v[y as int] as int, sprite,
                n as int);
            let flag: u8 = if drawn.1 {
                1
            } else {
                0
            };
            Ok(
                VmState {
                    disp: drawn.0,
                    v: s.v.update(15, flag),
                    pc: next_pc(s.pc),
                    ..s
                },
            )
        },
        Instr::SkipKey { x } => Ok(
            VmState { pc: skip_pc(s.pc, key_pressed(s.input, s.v[x as int])), ..s },
        ),
        Instr::SkipNoKey { x } => Ok(
            VmState { pc: skip_pc(s.pc, !key_pressed(s.input, s.v[x as int])), ..s },
        ),
        Instr::GetDelay { x } => Ok(
            VmState { v: s.v.update(x as int, s.dt), pc: next_pc(s.pc), ..s },
        ),
        Instr::WaitKey { x } => Ok(
            VmState {
                waiting: Some(x),
                input: InputView { dirty: false, ..s.input },
                pc: next_pc(s.pc),
                ..s
            },
        ),
        Instr::SetDelay { x } => Ok(VmState { dt: s.v[x as int], pc: next_pc(s.pc), ..s }),
        Instr::SetSound { x } => Ok(VmState { st: s.v[x as int], pc: next_pc(s.pc), ..s }),
        Instr::AddAddr { x } => Ok(
            VmState { i: ((s.i + s.v[x as int]) % 4096) as u16, pc: next_pc(s.pc), ..s },
        ),
        Instr::FontAddr { x } => Ok(
            VmState { i: (s.v[x as int] * 5) as u16, pc: next_pc(s.pc), ..s },
        ),
        Instr::StoreBcd { x } => {
            let vx = s.v[x as int];
            Ok(
                VmState {
                    ram: s.ram.update(s.i as int, (vx / 100) as u8).update(
                        (s.i + 1) % 4096,
                        ((vx / 10) % 10) as u8,
                    ).update((s.i + 2) % 4096, (vx % 10) as u8),
                    pc: next_pc(s.pc),
                    ..s
                },
            )
        },
        Instr::StoreRegs { x } => Ok(
            VmState {
                ram: store_regs(s.ram, s.v, s.i as int, x + 1),
                pc: next_pc(s.pc),
                ..s
            },
        ),
        Instr::LoadRegs { x } => Ok(
            VmState {
                v: Seq::new(
                    16,
                    |k: int|
                        if k <= x {
                            s.ram[(s.i + k) % 4096]
                        } else {
                            s.v[k]
                        },
                ),
                pc: next_pc(s.pc),
                ..s
            },
        ),
    }
}

/// One tick of the fixed-cadence timer clock on the mathematical state:
/// each nonzero timer counts down by one and is clamped at zero; nothing
/// else changes.
pub open spec fn tick_spec(s: VmState) -> VmState {
    VmState {
        dt: if s.dt > 0 {
            (s.dt - 1) as u8
        } else {
            0
        },
        st: if s.st > 0 {
            (s.st - 1) as u8
        } else {
            0
        },
        ..s
    }
}

/// One engine cycle on the mathematical state. When the machine is waiting
/// for a key, a pending transition completes the wait and nothing else
/// happens; otherwise the word at the program counter is fetched, decoded
/// and executed, and an unrecognized word is the fatal `InvalidOpcode`.
pub open spec fn step_spec(s: VmState, rnd: u8) -> Result<VmState, VmError> {
    match s.waiting {
        Some(x) => {
            if s.input.dirty {
                Ok(VmState { v: s.v.update(x as int, s.input.last), waiting: None, ..s })
            } else {
                Ok(s)
            }
        },
        None => {
            let instr = fetch_word(s);
            match decode_spec(instr) {
                None => Err(VmError::InvalidOpcode { instr, pc: s.pc }),
                Some(ins) => exec_spec(s, ins, rnd),
            }
        },
    }
}

} // verus!

verus! {

/// The engine together with its three state holders: memory, the display
/// engine, and the input latch. The register file (sixteen general
/// registers, the address register, the program counter, the call stack and
/// the two timers) lives directly on this struct.
pub struct Cpu {
    /// The 4096-byte memory.
    pub memory: Memory,
    /// The display and collision engine.
    pub graphics: Graphics,
    /// The input latch.
    pub input: Input,
    /// The sixteen general-purpose registers; index 15 is the flag register.
    pub v: Vec<u8>,
    /// The address register I.
    pub i: u16,
    /// The program counter.
    pub pc: u16,
    /// The call stack.
    pub stack: Vec<u16>,
    /// The stack pointer.
    pub sp: u8,
    /// The delay timer.
    pub dt: u8,
    /// The sound timer.
    pub st: u8,
    /// The register awaiting a key, when execution is suspended.
    pub waiting: Option<u8>,
}

impl View for Cpu {
    type V = VmState;

    open spec fn view(&self) -> VmState {
        VmState {
            ram: self.memory@,
            disp: self.graphics.display@,
            input: self.input@,
            v: self.v@,
            i: self.i,
            pc: self.pc,
            stack: self.stack@,
            sp: self.sp,
            dt: self.dt,
            st: self.st,
            waiting: self.waiting,
        }
    }
}

/// Relies on rand's `random`: one byte from the thread-local generator.
/// Nothing is assumed of the value; every caller must state what holds of
/// any byte that comes back.
#[verifier::external_body]
fn random_byte() -> u8 {
    rand::random()
}

impl Cpu {
    /// The machine state invariants hold.
    pub open spec fn wf(&self) -> bool {
        self@.wf()
    }

    /// Boot the machine with a ROM: memory loaded, display dark, no key
    /// down, registers zero, program counter at the start of program space.
    pub fn new(rom: Vec<u8>) -> (cpu: Cpu)
        requires
            rom@.len() <= 4096 - 0x200,
        ensures
            cpu.wf(),
            cpu@ == boot_state(rom@),
    {
        let memory = Memory::new(rom);
        let graphics = Graphics::new();
        let input = Input::new();
        let cpu = Cpu {
            memory,
            graphics,
            input,
            v: vec![0u8; 16],
            i: 0,
            pc: END_RESERVED as u16,
            stack: vec![0u16; 16],
            sp: 0,
            dt: 0,
            st: 0,
            waiting: None,
        };
        proof {
            assert(cpu@ =~= boot_state(rom@));
        }
        cpu
    }

    /// The value of general register `reg`, or `InvalidRegister` for an
    /// index past 15. Unreachable from decoded instructions, whose register
    /// fields are four bits wide, but checked defensively here.
    pub fn get_reg(&self, reg: u8) -> (r: Result<u8, VmError>)
        requires
            self.wf(),
        ensures
            reg < 16 ==> r == Ok::<u8, VmError>(self@.v[reg as int]),
            reg >= 16 ==> r == Err::<u8, VmError>(VmError::InvalidRegister { reg }),
    {
        if reg < 16 {
            Ok(self.v[reg as usize])
        } else {
            Err(VmError::InvalidRegister { reg })
        }
    }

    /// Set general register `reg` to `byte`, or report `InvalidRegister`
    /// for an index past 15, leaving the machine untouched.
    pub fn set_reg(&mut self, reg: u8, byte: u8) -> (r: Result<(), VmError>)
        requires
            old(self).wf(),
        ensures
            final(self).wf(),
            reg < 16 ==> r == Ok::<(), VmError>(()) && final(self)@ == (VmState {
                v: old(self)@.v.update(reg as int, byte),
                ..old(self)@
            }),
            reg >= 16 ==> r == Err::<(), VmError>(VmError::InvalidRegister { reg })
                && final(self)@ == old(self)@,
    {
        if reg < 16 {
            self.v.set(reg as usize, byte);
            Ok(())
        } else {
            Err(VmError::InvalidRegister { reg })
        }
    }

    /// One tick of the fixed-cadence timer clock: each nonzero timer counts
    /// down by one and is clamped at zero. The host drives this at roughly
    /// sixty ticks per second, independent of instruction throughput.
    pub fn tick_timers(&mut self)
        requires
            old(self).wf(),
        ensures
            final(self).wf(),
            final(self)@ == tick_spec(old(self)@),
    {
        if self.dt > 0 {
            self.dt = self.dt - 1;
        }
        if self.st > 0 {
            self.st = self.st - 1;
        }
    }

    /// Whether the tone should be sounding: exactly while the sound timer
    /// is nonzero. This is the sole signal exposed to the audio collaborator.
    pub fn tone_active(&self) -> (r: bool)
        ensures
            r == (self@.st > 0),
    {
        self.st > 0
    }

    /// Read the `n`-byte sprite starting at the address register, each
    /// address wrapped into the 12-bit space.
    fn read_sprite(&self, n: u8) -> (sprite: Vec<u8>)
        requires
            self.wf(),
            n < 16,
        ensures
            sprite@ == Seq::new(n as nat, |k: int| self@.ram[(self@.i + k) % 4096]),
    {
        let mut sprite: Vec<u8> = Vec::new();
        let mut k: usize = 0;
        while k < n as usize
            invariant
                self.wf(),
                n < 16,
                k <= n as usize,
                sprite@.len() == k,
                forall|t: int| 0 <= t < k ==> sprite@[t] == self@.ram[(self@.i + t) % 4096],
            decreases n as int - k,
        {
            let addr: usize = (self.i as usize + k) % 4096;
            sprite.push(self.memory.read(addr));
            k += 1;
        }
        proof {
            assert(sprite@ =~= Seq::new(n as nat, |t: int| self@.ram[(self@.i + t) % 4096]));
        }
        sprite
    }

    /// Write registers V0..=VX to memory starting at the address register.
    fn dump_regs(&mut self, x: u8)
        requires
            old(self).wf(),
            x < 16,
        ensures
            final(self).wf(),
            final(self)@ == (VmState {
                ram: store_regs(old(self)@.ram, old(self)@.v, old(self)@.i as int, x + 1),
                ..old(self)@
            }),
    {
        let end: usize = x as usize + 1;
        let mut k: usize = 0;
        while k < end
            invariant
                old(self).wf(),
                end == x as usize + 1,
                x < 16,
                k <= end,
                self.memory@.len() == 4096,
                self@ == (VmState {
                    ram: store_regs(old(self)@.ram, old(self)@.v, old(self)@.i as int, k as int),
                    ..old(self)@
                }),
            decreases end - k,
        {
            let addr: usize = (self.i as usize + k) % 4096;
            let val: u8 = self.v[k];
            self.memory.write(addr, val);
            k += 1;
        }
    }

    /// Fill registers V0..=VX from memory starting at the address register.
    fn fill_regs(&mut self, x: u8)
        requires
            old(self).wf(),
            x < 16,
        ensures
            final(self).wf(),
            final(self)@ == (VmState {
                v: Seq::new(
                    16,
                    |k: int|
                        if k <= x {
                            old(self)@.ram[(old(self)@.i + k) % 4096]
                        } else {
                            old(self)@.v[k]
                        },
                ),
                ..old(self)@
            }),
    {
        let end: usize = x as usize + 1;
        let mut k: usize = 0;
        while k < end
            invariant
                old(self).wf(),
                end == x as usize + 1,
                x < 16,
                k <= end,
                self.v@.len() == 16,
                forall|t: int| 0 <= t < k ==> self.v@[t] == old(self)@.ram[(old(self)@.i + t)
                    % 4096],
                forall|t: int| k <= t < 16 ==> self.v@[t] == old(self)@.v[t],
                self@ == (VmState { v: self.v@, ..old(self)@ }),
            decreases end - k,
        {
            let addr: usize = (self.i as usize + k) % 4096;
            let b: u8 = self.memory.read(addr);
            self.v.set(k, b);
            k += 1;
        }
        proof {
            assert(self.v@ =~= Seq::new(
                16,
                |k: int|
                    if k <= x {
                        old(self)@.ram[(old(self)@.i + k) % 4096]
                    } else {
                        old(self)@.v[k]
                    },
            ));
        }
    }
}

} // verus!

verus! {

impl Cpu {
    /// Execute one already-fetched instruction word: decode it, apply its
    /// effect, and advance the program counter past the instruction unless
    /// the instruction replaced it (jump, call, return, skip). An
    /// unrecognized word, a call with the stack full, and a return with the
    /// stack empty are fatal errors that leave the machine untouched.
    ///
    /// The random-number instruction draws one byte; the contract states
    /// only that the result is that byte masked by the immediate, which
    /// holds whatever byte came back.
    pub fn execute_instruction(&mut self, instr: u16) -> (r: Result<(), VmError>)
        requires
            old(self).wf(),
            old(self)@.waiting is None,
        ensures
            final(self).wf(),
            match decode_spec(instr) {
                None => r == Err::<(), VmError>(VmError::InvalidOpcode { instr, pc: old(self)@.pc })
                    && final(self)@ == old(self)@,
                Some(ins) => match r {
                    Ok(_) => exists|rnd: u8|
                        exec_spec(old(self)@, ins, rnd) == Ok::<VmState, VmError>(final(self)@),
                    Err(e) => exec_spec(old(self)@, ins, 0) == Err::<VmState, VmError>(e)
                        && final(self)@ == old(self)@,
                },
            },
    {
        let decoded = decode(instr);
        let ins: Instr = match decoded {
            Some(d) => d,
            None => {
                return Err(VmError::InvalidOpcode { instr, pc: self.pc });
            },
        };
        proof {
            lemma_decode_wf(instr);
        }
        match ins {
            Instr::Cls => {
                self.graphics.clear_display();
                self.pc = (self.pc + 2) % 4096;
                proof {
                    assert(exec_spec(old(self)@, ins, 0) == Ok::<VmState, VmError>(self@));
                }
                Ok(())
            },
            Instr::Ret => {
                if self.sp == 0 {
                    return Err(VmError::StackUnderflow);
                }
                self.sp = self.sp - 1;
                self.pc = self.stack[self.sp as usize];
                self.stack.set(self.sp as usize, 0);
                proof {
                    assert(exec_spec(old(self)@, ins, 0) == Ok::<VmState, VmError>(self@));
                }
                Ok(())
            },
            Instr::Jump { nnn } => {
                self.pc = nnn;
                proof {
                    assert(exec_spec(old(self)@, ins, 0) == Ok::<VmState, VmError>(self@));
                }
                Ok(())
            },
            Instr::Call { nnn } => {
                if self.sp >= 16 {
                    return Err(VmError::StackOverflow);
                }
                let ret_addr: u16 = (self.pc + 2) % 4096;
                self.stack.set(self.sp as usize, ret_addr);
                self.sp = self.sp + 1;
                self.pc = nnn;
                proof {
                    assert(exec_spec(old(self)@, ins, 0) == Ok::<VmState, VmError>(self@));
                }
                Ok(())
            },
            Instr::SkipEqImm { x, nn } => {
                let cond: bool = self.v[x as usize] == nn;
                self.pc = if cond {
                    (self.pc + 4) % 4096
                } else {
                    (self.pc + 2) % 4096
                };
                proof {
                    assert(exec_spec(old(self)@, ins, 0) == Ok::<VmState, VmError>(self@));
                }
                Ok(())
            },
            Instr::SkipNeImm { x, nn } => {
                let cond: bool = self.v[x as usize] != nn;
                self.pc = if cond {
                    (self.pc + 4) % 4096
                } else {
                    (self.pc + 2) % 4096
                };
                proof {
                    assert(exec_spec(old(self)@, ins, 0) == Ok::<VmState, VmError>(self@));
                }
                Ok(())
            },
            Instr::SkipEqReg { x, y } => {
                let cond: bool = self.v[x as usize] == self.v[y as usize];
                self.pc = if cond {
                    (self.pc + 4) % 4096
                } else {
                    (self.pc + 2) % 4096
                };
                proof {
                    assert(exec_spec(old(self)@, ins, 0) == Ok::<VmState, VmError>(self@));
                }
                Ok(())
            },
            Instr::LoadImm { x, nn } => {
                self.v.set(x as usize, nn);
                self.pc = (self.pc + 2) % 4096;
                proof {
                    assert(exec_spec(old(self)@, ins, 0) == Ok::<VmState, VmError>(self@));
                }
                Ok(())
            },
            Instr::AddImm { x, nn } => {
                let sum: u16 = self.v[x as usize] as u16 + nn as u16;
                self.v.set(x as usize, (sum % 256) as u8);
                self.pc = (self.pc + 2) % 4096;
                proof {
                    assert(exec_spec(old(self)@, ins, 0) == Ok::<VmState, VmError>(self@));
                }
                Ok(())
            },
            Instr::Assign { x, y } => {
                let vy: u8 = self.v[y as usize];
                self.v.set(x as usize, vy);
                self.pc = (self.pc + 2) % 4096;
                proof {
                    assert(exec_spec(old(self)@, ins, 0) == Ok::<VmState, VmError>(self@));
                }
                Ok(())
            },
            Instr::Or { x, y } => {
                let val: u8 = self.v[x as usize] | self.v[y as usize];
                self.v.set(x as usize, val);
                self.pc = (self.pc + 2) % 4096;
                proof {
                    assert(exec_spec(old(self)@, ins, 0) == Ok::<VmState, VmError>(self@));
                }
                Ok(())
            },
            Instr::And { x, y } => {
                let val: u8 = self.v[x as usize] & self.v[y as usize];
                self.v.set(x as usize, val);
                self.pc = (self.pc + 2) % 4096;
                proof {
                    assert(exec_spec(old(self)@, ins, 0) == Ok::<VmState, VmError>(self@));
                }
                Ok(())
            },
            Instr::Xor { x, y } => {
                let val: u8 = self.v[x as usize] ^ self.v[y as usize];
                self.v.set(x as usize, val);
                self.pc = (self.pc + 2) % 4096;
                proof {
                    assert(exec_spec(old(self)@, ins, 0) == Ok::<VmState, VmError>(self@));
                }
                Ok(())
            },
            Instr::Add { x, y } => {
                let vx: u8 = self.v[x as usize];
                let vy: u8 = self.v[y as usize];
                let sum: u16 = vx as u16 + vy as u16;
                let flag: u8 = if sum > 255 {
                    1
                } else {
                    0
                };
                self.v.set(15, flag);
                self.v.set(x as usize, (sum % 256) as u8);
                self.pc = (self.pc + 2) % 4096;
                proof {
                    assert(exec_spec(old(self)@, ins, 0) == Ok::<VmState, VmError>(self@));
                }
                Ok(())
            },
            Instr::Sub { x, y } => {
                let vx: u8 = self.v[x as usize];
                let vy: u8 = self.v[y as usize];
                let flag: u8 = if vx >= vy {
                    1
                } else {
                    0
                };
                let diff: u8 = ((vx as u16 + 256 - vy as u16) % 256) as u8;
                self.v.set(15, flag);
                self.v.set(x as usize, diff);
                self.pc = (self.pc + 2) % 4096;
                proof {
                    assert(exec_spec(old(self)@, ins, 0) == Ok::<VmState, VmError>(self@));
                }
                Ok(())
            },
            Instr::ShiftRight { x } => {
                let vx: u8 = self.v[x as usize];
                self.v.set(15, vx % 2);
                self.v.set(x as usize, vx / 2);
                self.pc = (self.pc + 2) % 4096;
                proof {
                    assert(exec_spec(old(self)@, ins, 0) == Ok::<VmState, VmError>(self@));
                }
                Ok(())
            },
            Instr::SubNeg { x, y } => {
                let vx: u8 = self.v[x as usize];
                let vy: u8 = self.v[y as usize];
                let flag: u8 = if vy >= vx {
                    1
                } else {
                    0
                };
                let diff: u8 = ((vy as u16 + 256 - vx as u16) % 256) as u8;
                self.v.set(15, flag);
                self.v.set(x as usize, diff);
                self.pc = (self.pc + 2) % 4096;
                proof {
                    assert(exec_spec(old(self)@, ins, 0) == Ok::<VmState, VmError>(self@));
                }
                Ok(())
            },
            Instr::ShiftLeft { x } => {
                let vx: u8 = self.v[x as usize];
                self.v.set(15, vx / 128);
                self.v.set(x as usize, ((vx as u16 * 2) % 256) as u8);
                self.pc = (self.pc + 2) % 4096;
                proof {
                    assert(exec_spec(old(self)@, ins, 0) == Ok::<VmState, VmError>(self@));
                }
                Ok(())
            },
            Instr::SkipNeReg { x, y } => {
                let cond: bool = self.v[x as usize] != self.v[y as usize];
                self.pc = if cond {
                    (self.pc + 4) % 4096
                } else {
                    (self.pc + 2) % 4096
                };
                proof {
                    assert(exec_spec(old(self)@, ins, 0) == Ok::<VmState, VmError>(self@));
                }
                Ok(())
            },
            Instr::LoadAddr { nnn } => {
                self.i = nnn;
                self.pc = (self.pc + 2) % 4096;
                proof {
                    assert(exec_spec(old(self)@, ins, 0) == Ok::<VmState, VmError>(self@));
                }
                Ok(())
            },
            Instr::JumpOffset { nnn } => {
                self.pc = (nnn + self.v[0] as u16) % 4096;
                proof {
                    assert(exec_spec(old(self)@, ins, 0) == Ok::<VmState, VmError>(self@));
                }
                Ok(())
            },
            Instr::Random { x, nn } => {
                let b: u8 = random_byte();
                self.v.set(x as usize, b & nn);
                self.pc = (self.pc + 2) % 4096;
                proof {
                    assert(exec_spec(old(self)@, ins, b) == Ok::<VmState, VmError>(self@));
                }
                Ok(())
            },
            Instr::Draw { x, y, n } => {
                let sprite = self.read_sprite(n);
                let vx: u8 = self.v[x as usize];
                let vy: u8 = self.v[y as usize];
                let coll: u8 = self.graphics.draw(vx as usize, vy as usize, sprite);
                self.v.set(15, coll);
                self.pc = (self.pc + 2) % 4096;
                proof {
                    assert(exec_spec(old(self)@, ins, 0) == Ok::<VmState, VmError>(self@));
                }
                Ok(())
            },
            Instr::SkipKey { x } => {
                let cond: bool = self.input.is_pressed(self.v[x as usize]);
                self.pc = if cond {
                    (self.pc + 4) % 4096
                } else {
                    (self.pc + 2) % 4096
                };
                proof {
                    assert(exec_spec(old(self)@, ins, 0) == Ok::<VmState, VmError>(self@));
                }
                Ok(())
            },
            Instr::SkipNoKey { x } => {
                let cond: bool = !self.input.is_pressed(self.v[x as usize]);
                self.pc = if cond {
                    (self.pc + 4) % 4096
                } else {
                    (self.pc + 2) % 4096
                };
                proof {
                    assert(exec_spec(old(self)@, ins, 0) == Ok::<VmState, VmError>(self@));
                }
                Ok(())
            },
            Instr::GetDelay { x } => {
                let dt: u8 = self.dt;
                self.v.set(x as usize, dt);
                self.pc = (self.pc + 2) % 4096;
                proof {
                    assert(exec_spec(old(self)@, ins, 0) == Ok::<VmState, VmError>(self@));
                }
                Ok(())
            },
            Instr::WaitKey { x } => {
                self.input.begin_wait();
                self.waiting = Some(x);
                self.pc = (self.pc + 2) % 4096;
                proof {
                    assert(exec_spec(old(self)@, ins, 0) == Ok::<VmState, VmError>(self@));
                }
                Ok(())
            },
            Instr::SetDelay { x } => {
                self.dt = self.v[x as usize];
                self.pc = (self.pc + 2) % 4096;
                proof {
                    assert(exec_spec(old(self)@, ins, 0) == Ok::<VmState, VmError>(self@));
                }
                Ok(())
            },
            Instr::SetSound { x } => {
                self.st = self.v[x as usize];
                self.pc = (self.pc + 2) % 4096;
                proof {
                    assert(exec_spec(old(self)@, ins, 0) == Ok::<VmState, VmError>(self@));
                }
                Ok(())
            },
            Instr::AddAddr { x } => {
                self.i = (self.i + self.v[x as usize] as u16) % 4096;
                self.pc = (self.pc + 2) % 4096;
                proof {
                    assert(exec_spec(old(self)@, ins, 0) == Ok::<VmState, VmError>(self@));
                }
                Ok(())
            },
            Instr::FontAddr { x } => {
                let vx: u8 = self.v[x as usize];
                self.i = self.memory.get_font(vx);
                self.pc = (self.pc + 2) % 4096;
                proof {
                    assert(exec_spec(old(self)@, ins, 0) == Ok::<VmState, VmError>(self@));
                }
                Ok(())
            },
            Instr::StoreBcd { x } => {
                let vx: u8 = self.v[x as usize];
                let i0: usize = self.i as usize;
                self.memory.write(i0, vx / 100);
                self.memory.write((i0 + 1) % 4096, (vx / 10) % 10);
                self.memory.write((i0 + 2) % 4096, vx % 10);
                self.pc = (self.pc + 2) % 4096;
                proof {
                    assert(exec_spec(old(self)@, ins, 0) == Ok::<VmState, VmError>(self@));
                }
                Ok(())
            },
            Instr::StoreRegs { x } => {
                self.dump_regs(x);
                self.pc = (self.pc + 2) % 4096;
                proof {
                    assert(exec_spec(old(self)@, ins, 0) == Ok::<VmState, VmError>(self@));
                }
                Ok(())
            },
            Instr::LoadRegs { x } => {
                self.fill_regs(x);
                self.pc = (self.pc + 2) % 4096;
                proof {
                    assert(exec_spec(old(self)@, ins, 0) == Ok::<VmState, VmError>(self@));
                }
                Ok(())
            },
        }
    }
}

} // verus!

verus! {

/// How a bounded run ended.
#[derive(Clone, Copy, Debug, PartialEq, Eq, Structural)]
pub enum RunExit {
    /// The host had requested a halt; the engine checks for that between
    /// instructions, never mid-instruction.
    Halted,
    /// Execution is suspended until a key transition arrives; the host
    /// should poll its key source and feed events in before running on.
    WaitingForKey,
    /// The instruction budget was used up.
    OutOfFuel,
    /// A fatal error; the machine is left exactly as the failing
    /// instruction found it.
    Failed(VmError),
}

/// The machine after running at most `fuel` cycles against the random bytes
/// `rnds` (one consumed per cycle), together with how the run ended. The
/// run stops early at a halt request, at a key wait with no pending
/// transition, and at the first fatal error.
pub open spec fn run_spec(s: VmState, rnds: Seq<u8>, fuel: nat) -> (VmState, RunExit)
    decreases fuel,
{
    if s.input.close {
        (s, RunExit::Halted)
    } else if fuel == 0 {
        (s, RunExit::OutOfFuel)
    } else if s.waiting is Some && !s.input.dirty {
        (s, RunExit::WaitingForKey)
    } else {
        let rnd = if rnds.len() > 0 {
            rnds[0]
        } else {
            0u8
        };
        let rest = if rnds.len() > 0 {
            rnds.drop_first()
        } else {
            rnds
        };
        match step_spec(s, rnd) {
            Err(e) => (s, RunExit::Failed(e)),
            Ok(s2) => run_spec(s2, rest, (fuel - 1) as nat),
        }
    }
}

impl Cpu {
    /// Fetch the big-endian instruction word at the program counter, the
    /// second byte wrapping to address zero when the counter sits at the
    /// very top of memory.
    fn fetch(&self) -> (w: u16)
        requires
            self.wf(),
        ensures
            w == fetch_word(self@),
    {
        if self.pc < 4095 {
            self.memory.read_word(self.pc)
        } else {
            let hi: u8 = self.memory.read(self.pc as usize);
            let lo: u8 = self.memory.read(0);
            hi as u16 * 256 + lo as u16
        }
    }

    /// One engine cycle: complete a pending key wait if a transition has
    /// arrived, keep waiting if none has, and otherwise fetch, decode and
    /// execute the word at the program counter.
    pub fn step(&mut self) -> (r: Result<(), VmError>)
        requires
            old(self).wf(),
        ensures
            final(self).wf(),
            match r {
                Ok(_) => exists|rnd: u8|
                    step_spec(old(self)@, rnd) == Ok::<VmState, VmError>(final(self)@),
                Err(e) => step_spec(old(self)@, 0) == Err::<VmState, VmError>(e) && final(self)@
                    == old(self)@,
            },
    {
        match self.waiting {
            Some(x) => {
                if self.input.dirty() {
                    let key: u8 = self.input.last_input();
                    self.v.set(x as usize, key);
                    self.waiting = None;
                }
                proof {
                    assert(step_spec(old(self)@, 0) == Ok::<VmState, VmError>(self@));
                }
                Ok(())
            },
            None => {
                let w: u16 = self.fetch();
                let r = self.execute_instruction(w);
                proof {
                    if r is Ok {
                        let ins = choose|ins: Instr| decode_spec(w) == Some(ins);
                        let rnd = choose|rnd: u8|
                            exec_spec(old(self)@, ins, rnd) == Ok::<VmState, VmError>(self@);
                        assert(step_spec(old(self)@, rnd) == Ok::<VmState, VmError>(self@));
                    }
                }
                r
            },
        }
    }

    /// Run up to `fuel` engine cycles, stopping early at a halt request, at
    /// a key wait with no pending transition, and at the first fatal error.
    /// The host polls its key source, feeds events to the input latch and
    /// ticks the timers between calls.
    pub fn run(&mut self, fuel: u64) -> (r: RunExit)
        requires
            old(self).wf(),
        ensures
            final(self).wf(),
            exists|rnds: Seq<u8>| run_spec(old(self)@, rnds, fuel as nat) == (final(self)@, r),
    {
        let mut k: u64 = 0;
        let ghost mut consumed: Seq<u8> = Seq::empty();
        proof {
            assert forall|future: Seq<u8>|
                run_spec(old(self)@, consumed + future, fuel as nat) == run_spec(
                    self@,
                    future,
                    fuel as nat,
                ) by {
                assert(consumed + future =~= future);
            }
        }
        loop
            invariant
                self.wf(),
                k <= fuel,
                consumed.len() == k,
                forall|future: Seq<u8>|
                    run_spec(old(self)@, #[trigger] (consumed + future), fuel as nat) == run_spec(
                        self@,
                        future,
                        (fuel - k) as nat,
                    ),
            decreases fuel - k,
        {
            if self.input.close_requested() {
                proof {
                    assert(consumed + Seq::<u8>::empty() =~= consumed);
                    assert(run_spec(old(self)@, consumed + Seq::<u8>::empty(), fuel as nat)
                        == run_spec(self@, Seq::<u8>::empty(), (fuel - k) as nat));
                }
                return RunExit::Halted;
            }
            if k == fuel {
                proof {
                    assert(consumed + Seq::<u8>::empty() =~= consumed);
                    assert(run_spec(old(self)@, consumed + Seq::<u8>::empty(), fuel as nat)
                        == run_spec(self@, Seq::<u8>::empty(), (fuel - k) as nat));
                }
                return RunExit::OutOfFuel;
            }
            let is_waiting: bool = self.waiting.is_some();
            if is_waiting && !self.input.dirty() {
                proof {
                    assert(consumed + Seq::<u8>::empty() =~= consumed);
                    assert(run_spec(old(self)@, consumed + Seq::<u8>::empty(), fuel as nat)
                        == run_spec(self@, Seq::<u8>::empty(), (fuel - k) as nat));
                }
                return RunExit::WaitingForKey;
            }
            let ghost s_pre = self@;
            let res = self.step();
            match res {
                Err(e) => {
                    proof {
                        assert(run_spec(old(self)@, consumed + seq![0u8], fuel as nat) == run_spec(
                            s_pre,
                            seq![0u8],
                            (fuel - k) as nat,
                        ));
                        assert(seq![0u8].len() > 0 && seq![0u8][0] == 0u8);
                        assert(run_spec(s_pre, seq![0u8], (fuel - k) as nat) == (
                            s_pre,
                            RunExit::Failed(e),
                        ));
                    }
                    return RunExit::Failed(e);
                },
                Ok(_) => {
                    proof {
                        let b = choose|rnd: u8|
                            step_spec(s_pre, rnd) == Ok::<VmState, VmError>(self@);
                        assert(step_spec(s_pre, b) == Ok::<VmState, VmError>(self@));
                        assert forall|future: Seq<u8>|
                            run_spec(old(self)@, #[trigger] (consumed.push(b) + future), fuel as nat)
                                == run_spec(self@, future, (fuel - (k + 1)) as nat) by {
                            let ext = seq![b] + future;
                            assert(consumed + ext =~= consumed.push(b) + future);
                            assert(run_spec(old(self)@, consumed + ext, fuel as nat) == run_spec(
                                s_pre,
                                ext,
                                (fuel - k) as nat,
                            ));
                            assert(ext.len() > 0 && ext[0] == b);
                            assert(ext.drop_first() =~= future);
                            assert(run_spec(s_pre, ext, (fuel - k) as nat) == run_spec(
                                self@,
                                future,
                                (fuel - k - 1) as nat,
                            ));
                        }
                        consumed = consumed.push(b);
                    }
                    k = k + 1;
                },
            }
        }
    }
}

} // verus!
