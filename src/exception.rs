use vstd::prelude::*;

verus! {

/// Why an operation of the machine failed.
#[derive(Debug, Clone, Copy, PartialEq, Eq, Structural)]
pub enum Exception {
    /// A read or write past the end of memory; carries the offending address,
    /// or the length of a program that does not fit.
    OutOfMemory(u16),
    /// A call with all stack slots in use; carries the stack pointer.
    StackOverflow(u8),
    /// A return with an empty stack; carries the stack pointer.
    StackUnderflow(u8),
    /// The fetched word is no instruction; carries the word.
    IllegalOpcode(u16),
    /// A jump target or block address outside the address space.
    IllegalAddress(u16),
    /// Never raised by the machine: a driver's signal for a requested stop.
    Halt(i32),
}

} // verus!
