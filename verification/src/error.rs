//! The failures a cycle or a ROM load can report.

use vstd::prelude::*;

verus! {

/// The `Error` type returned when an operation on the [`crate::Processor`]
/// fails.
///
/// A cycle never corrects a fault silently: every condition that the classic
/// interpreter left undefined (a full or empty call stack, an index-relative
/// memory access past the end of memory, a key number outside the pad) is
/// surfaced here as a typed failure and the instruction has no effect beyond
/// the fetch advance of the program counter.
#[derive(Clone, Copy, Debug, PartialEq, Eq, Structural)]
pub enum Error {
    /// No instruction handler matched the fetched opcode. `pc` is the value
    /// of the program counter after the fetch advance, as the interpreter
    /// reports it; `opcode` is the two-byte word that failed to decode.
    UnknownOpcode { pc: u16, opcode: u16 },
    /// A ROM was longer than the 3584 bytes of memory that lie above the
    /// load address 512.
    RomTooLarge,
    /// A subroutine call found all sixteen stack slots in use.
    StackOverflow,
    /// A subroutine return found the stack empty.
    StackUnderflow,
    /// An index-relative access (sprite read, BCD store, block load or
    /// store) or an instruction fetch reached past address 4095.
    MemoryOutOfBounds,
    /// A key-skip instruction named a key number of 16 or more, outside the
    /// sixteen-key pad.
    InvalidKey,
}

} // verus!
