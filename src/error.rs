use vstd::prelude::*;

verus! {

/// The fatal conditions that the machine reports to its host.
#[derive(Clone, Copy, Debug, PartialEq, Eq, Structural)]
pub enum EmuError {
    /// A program image does not fit between the start address and the end of memory.
    RomTooLarge,
    /// The fetched instruction word has no defined behaviour.
    UnsupportedOpcode(u16),
    /// A call was made with all sixteen return slots in use.
    StackOverflow,
    /// A return was made with no return address on the stack.
    StackUnderflow,
    /// An instruction fetch or a memory operand lies beyond the end of memory.
    AddressOutOfRange,
    /// A key instruction named a key outside the sixteen of the keypad.
    KeyOutOfRange,
}

} // verus!
