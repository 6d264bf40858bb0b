use vstd::prelude::*;

verus! {

/// Every way a run can fail.
#[derive(Debug, Clone, Copy, PartialEq, Eq, Structural)]
pub enum BfError {
    /// A `]` at `position` has no `[` before it to close.
    MismatchedClose { position: usize },
    /// The scan ended with at least one `[` still open.
    UnmatchedOpen,
    /// A `,` found no input byte left.
    InputExhausted,
    /// Reading or writing a standard stream failed.
    HostIo,
    /// The external assembler could not be run or reported a failure.
    Tooling,
    /// The executable region could not be mapped or made executable.
    MemoryMapping,
}

} // verus!
