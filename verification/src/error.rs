//! The ways a run can fail. Every one of them ends the run.

use vstd::prelude::*;

verus! {

/// Why a run was aborted.
#[derive(Clone, Copy, Debug, PartialEq, Eq, Structural, Hash)]
pub enum BootloaderError {
    /// A task's program could not be read or is malformed.
    ProgramLoadError,
    /// A task's program hash is not among the supported ones.
    ProgramHashMismatch,
    /// A task asks for a builtin the run lacks, or lists its builtins out of order.
    BuiltinMismatch,
    /// A task produced an output of another size than was reserved for it.
    OutputSizeMismatch,
    /// A task is about to run at another address than its program was loaded at.
    ProgramAddressMismatch,
    /// No handler is registered under the identifier.
    UnknownHint,
    /// A run argument was asked for that does not exist.
    IndexOutOfRange,
    /// The machine refused a read, a write or a relocation rule.
    Memory,
    /// An address computation left the range of offsets.
    AddressOverflow,
    /// A step was asked for that the current state of the run does not allow.
    UnexpectedStep,
}

} // verus!
