//! Conditions that construction or a step can report to the host.

use vstd::prelude::*;

verus! {

/// What can go wrong while loading a program or executing one instruction.
///
/// None of these is fatal to the machine: the host decides whether to halt,
/// skip or log.
#[derive(Clone, Copy, Debug, PartialEq, Eq, Structural)]
pub enum Chip8Error {
    /// The instruction word matched no known instruction. `pc` is the
    /// program counter after the fetch, that is the address of the word
    /// plus two.
    UnsupportedOpcode { opcode: u16, pc: u16 },
    /// A call was executed while all sixteen stack slots were in use.
    StackOverflow,
    /// A return was executed while the stack was empty.
    StackUnderflow,
    /// The program does not fit between 0x200 and the end of memory.
    LoadError,
    /// The instruction needed a memory cell past the end of memory or a key
    /// index past 0xF. `pc` is the program counter at the time of the
    /// fault: the address of the word itself when the fetch failed, the
    /// address behind it otherwise.
    OutOfRange { pc: u16 },
}

} // verus!
