use vstd::prelude::*;

verus! {

/// Why an instruction was refused. A refused instruction changes nothing.
#[derive(Debug, Clone, Copy, PartialEq, Eq, Structural)]
pub enum GameError {
    /// A claimed address, a turn or a participant does not match.
    Unauthorized,
    /// The request does not fit the current state of the records.
    InvalidRequest,
    /// The instruction payload is malformed or out of range.
    InvalidInstructionData,
    /// A balance cannot cover a stake or a reserve.
    InsufficientFunds,
    /// The request would break an invariant of the records.
    LogicError,
}

} // verus!
