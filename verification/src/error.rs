use vstd::prelude::*;

verus! {

/// Everything that can go wrong while loading or running a program.
#[derive(Clone, Copy, Debug, PartialEq, Eq, Structural)]
pub enum Chip8Error {
    /// The program does not fit between the load address and the end of memory.
    CapacityError,
    /// A call was made with sixteen return addresses already stored.
    StackOverflow,
    /// A return was made with no return address stored.
    StackUnderflow,
    /// A memory access reached past the last addressable byte.
    AddressOutOfRange,
    /// The instruction word matches no entry of the instruction table.
    UnknownOpcode,
}

impl Chip8Error {
    /// Every error but an unknown opcode ends the run: the machine state can
    /// no longer be relied on. An unknown opcode leaves the state untouched
    /// and execution may go on.
    pub open spec fn fatal(self) -> bool {
        self != Chip8Error::UnknownOpcode
    }

    /// Whether the run has to stop on this error.
    pub fn is_fatal(&self) -> (fatal: bool)
        ensures
            fatal == self.fatal(),
    {
        match self {
            Chip8Error::UnknownOpcode => false,
            _ => true,
        }
    }
}

} // verus!
