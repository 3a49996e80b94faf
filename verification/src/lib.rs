//! A token-weighted voting ledger.
//!
//! A fixed list of candidates is registered together with a token sale. Participants buy
//! tokens out of a shared supply and spend them as weighted votes; every vote is checked
//! against what the participant has left, and a running tally is kept for each candidate.
//!
//! [`AtbashVoting`] is the executable ledger. It neither reads the caller's identity nor
//! moves any value itself: the host hands in who is calling and what was paid, and
//! carries out the [`Transfer`] that the ledger orders.
//!
//! The contracts are stated over [`model::Ledger`], a mathematical picture of the same
//! state, and the rules that every reachable ledger obeys are proved in [`laws`].

pub mod account;
pub mod error;
pub mod laws;
pub mod lemmas;
pub mod model;
pub mod sums;
pub mod transfer;
pub mod voter;
pub mod voting;

pub use crate::account::AccountId;
pub use crate::error::Error;
pub use crate::transfer::Transfer;
pub use crate::voter::Voter;
pub use crate::voting::AtbashVoting;
