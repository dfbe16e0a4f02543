use vstd::prelude::*;

verus! {

/// The ways in which a program can bring the machine to a halt.
///
/// Each of them is a fault of the loaded image. The interpreter reports it to
/// the host and attempts no recovery of its own.
#[derive(Clone, Copy, Debug, PartialEq, Eq, Structural)]
pub enum VmError {
    /// The fetched bit pattern names no operation.
    UnknownOpcode,
    /// A return was executed while the call stack was empty.
    StackUnderflow,
    /// A call was executed while the call stack was full.
    StackOverflow,
    /// An instruction fetch, or an access through the index register, reached
    /// past the last byte of memory.
    MemoryBoundsViolation,
}

impl VmError {
    /// A short description of the fault, for hosts that report it as text.
    pub fn message(&self) -> (s: &'static str)
        ensures
            s@ == self.message_text(),
    {
        match self {
            VmError::UnknownOpcode => "unknown opcode",
            VmError::StackUnderflow => "return with an empty call stack",
            VmError::StackOverflow => "call with a full call stack",
            VmError::MemoryBoundsViolation => "memory access out of bounds",
        }
    }

    /// The text that `message` returns.
    pub open spec fn message_text(&self) -> Seq<char> {
        match self {
            VmError::UnknownOpcode => "unknown opcode"@,
            VmError::StackUnderflow => "return with an empty call stack"@,
            VmError::StackOverflow => "call with a full call stack"@,
            VmError::MemoryBoundsViolation => "memory access out of bounds"@,
        }
    }
}

} // verus!
