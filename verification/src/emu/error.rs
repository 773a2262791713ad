//! The failure taxonomy of the machine. Every failure is fatal to the
//! running program: the engine surfaces it and does not retry.

use vstd::prelude::*;

verus! {

/// What can go wrong while loading or running a program.
#[derive(Clone, Copy, Debug, PartialEq, Eq, Structural)]
pub enum Chip8Error {
    /// An instruction word matched no row of the opcode table; carries the
    /// raw word.
    DecodeError(u16),
    /// A fetch or an operand read or write reached past the end of memory,
    /// or a key test used an index outside the keypad.
    AddressOutOfRange,
    /// A call was made with the stack already at its limit.
    StackOverflow,
    /// A return was made with nothing on the stack.
    StackUnderflow,
    /// A ROM image does not fit between the load address and the end of
    /// memory.
    RomTooLarge,
}

} // verus!
