use vstd::prelude::*;

verus! {

/// The conditions that end a run. None of them is recovered from inside the
/// machine: each is handed to the driver, which decides what to do next.
#[derive(Copy, Clone, Debug, PartialEq, Eq, Structural)]
pub enum ChipError {
    /// The instruction word is not part of the instruction set.
    DecodeError { raw: u16 },
    /// An access at `addr` would leave the 4096 bytes of memory.
    MemoryBoundsError { addr: usize },
    /// A call was made with sixteen return addresses already on the stack.
    StackOverflow,
    /// A return was made with no return address on the stack.
    StackUnderflow,
}

} // verus!
