//! The failure conditions that the interpreter reports to its host.

use vstd::prelude::*;

verus! {

/// Why an operation on the machine did not take place.
///
/// Every operation that returns one of these leaves the machine exactly as
/// it found it, so a host may report the failure, halt, or carry on.
#[derive(Clone, Copy, Debug, PartialEq, Eq, Structural)]
pub enum Chip8Error {
    /// The program image does not fit between the start address and the
    /// end of memory.
    LoadTooLarge,
    /// A subroutine return was executed with an empty call stack.
    StackUnderflow,
    /// A subroutine call was executed with all sixteen stack slots in use.
    StackOverflow,
    /// The fetched instruction word, carried here, matches no known
    /// instruction.
    UnimplementedOpcode(u16),
    /// The host named a key outside `0x0..=0xF`.
    OutOfRangeKeyIndex,
    /// An instruction would have touched a memory cell, a register or a key
    /// that does not exist.
    OutOfRangeAccess,
}

} // verus!
