//! Moving the unsold balance out of the sale.

use vstd::prelude::*;
use crate::account::AccountId;
use crate::error::Error;

verus! {

/// An order to the host: move `value` to `destination`.
#[derive(Debug, Clone, Copy, PartialEq, Eq)]
pub struct Transfer {
    /// The account that receives the value.
    pub destination: AccountId,
    /// The amount to move.
    pub value: u128,
}

impl Transfer {
    /// What becomes of the order once the host has answered: it is done if the host
    /// moved the value, and fails with [`Error::TransferFailure`] if the host refused.
    pub fn settle(&self, delivered: bool) -> (outcome: Result<(), Error>)
        ensures
            delivered ==> outcome == Ok::<(), Error>(()),
            !delivered ==> outcome == Err::<(), Error>(Error::TransferFailure),
    {
        if delivered {
            Ok(())
        } else {
            Err(Error::TransferFailure)
        }
    }
}

} // verus!
