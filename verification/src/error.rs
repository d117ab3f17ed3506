//! The conditions that stop the machine.

use vstd::prelude::*;

verus! {

/// A fatal condition met while loading a program or executing an instruction.
///
/// Every operation that reports one of these leaves the machine exactly as it
/// was before the operation began.
#[derive(Clone, Copy, Debug, PartialEq, Eq, Structural)]
pub enum Chip8Error {
    /// The word fetched at `pc` matches no known instruction pattern.
    UnknownOpcode { opcode: u16, pc: usize },
    /// A return was executed while the call stack was empty.
    StackUnderflow,
    /// An access reached `addr`, which lies beyond the last byte of memory.
    AddressOutOfRange { addr: usize },
    /// A key test named `key`, which is not one of the sixteen keys.
    KeyOutOfRange { key: u8 },
}

} // verus!
