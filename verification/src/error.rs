//! The reasons for which the ledger turns an operation down.

use vstd::prelude::*;

verus! {

/// Why an operation was turned down. An operation that is turned down leaves the ledger
/// as it was.
#[derive(Debug, Clone, Copy, PartialEq, Eq, Structural)]
pub enum Error {
    /// The operation named a candidate that is not registered.
    InvalidCandidate,
    /// A purchase asked for more tokens than remain unsold.
    InsufficientSupply,
    /// A vote asked for more tokens than the participant has left to spend.
    InsufficientBudget,
    /// The host refused to move the unsold balance.
    TransferFailure,
    /// The records contradict themselves: a participant's record shows more spent than
    /// bought, so that there is no budget to vote from, or the parts handed over to be
    /// put together are not those of any ledger.
    InvariantViolation,
}

} // verus!
