use vstd::prelude::*;

verus! {

/// Why a run or a disassembly stopped.
#[derive(Debug, Clone, Copy, PartialEq, Eq, Structural)]
pub enum Error {
    /// Out of bounds while accessing memory at offset.
    OutOfBounds(u16),
    /// The program counter became negative.
    NegativePc,
    /// The leading byte names no instruction, or the bytes end before its operands do.
    UnknownInstruction,
    /// A register operand is not one of 0, 1 and 2.
    InvalidRegister,
    /// The run was cut off after the largest number of steps it may take.
    StepLimit,
}

} // verus!
