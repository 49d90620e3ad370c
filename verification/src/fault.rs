//! Fatal machine conditions. Every fault is detected at the point of
//! occurrence and surfaced to the host; the interpreter never continues after
//! one. An unknown opcode is not a fault: it executes as a no-op.

use vstd::prelude::*;

verus! {

/// A fatal condition of the virtual machine.
#[derive(Clone, Copy, Debug, PartialEq, Eq, Structural)]
pub enum Fault {
    /// The program image does not fit in memory above the reserved area.
    OutOfSpace,
    /// The program counter points past the loaded instruction data.
    FetchOutOfBounds,
    /// A call pushed a return address onto a full stack.
    StackOverflow,
    /// A return popped from an empty stack.
    StackUnderflow,
    /// A derived address (index register plus offset, or a sprite read)
    /// exceeds the memory size.
    MemoryOutOfBounds,
}

} // verus!
