//! A verified CHIP-8 virtual machine core: instruction decoding, the
//! execute step over the machine state, and the data model (memory,
//! registers, stack, timers, framebuffer, keypad) the interpreter reads
//! and writes. Rendering, audio and input plumbing live outside the core.

use vstd::prelude::*;

pub mod cli;
pub mod instruction;
pub mod interpreter;
pub mod keypad;
pub mod loader;
pub mod run_control;
pub mod screen;
pub mod screen_config;
pub mod stack;
pub mod state;
pub mod text;
pub mod writers;

verus! {

/// Fatal faults of an emulation session. Every fault is surfaced as a typed
/// error with enough context (address or opcode) to diagnose it.
#[derive(Debug, Clone, Copy, PartialEq, Eq, Structural)]
pub enum Chip8Error {
    /// An out-of-bounds RAM access, carrying the offending address.
    InvalidMemoryAddress(usize),
    /// A subroutine call past the fixed stack capacity.
    StackOverflow,
    /// A subroutine return with no saved address on the stack.
    StackUnderflow,
    /// An opcode with no defined execution semantics, carrying the opcode
    /// family nibble and the 12-bit payload of the instruction word.
    UnsupportedInstruction(u8, u16),
}

} // verus!
