//! A CHIP-8 virtual machine: a fetch-decode-execute engine over 4096 bytes of
//! memory, sixteen 8-bit registers, a 64x32 monochrome display with XOR
//! drawing and collision detection, a sixteen-key input latch, and two
//! countdown timers.
//!
//! The engine itself is pure state transformation: it never performs I/O.
//! A host drives it by feeding key events in, ticking the timers at a fixed
//! cadence, and rendering the display buffer after each step.

pub mod cpu;
pub mod error;
pub mod graphics;
pub mod input;
pub mod interpreter;
pub mod laws;
pub mod memory;
