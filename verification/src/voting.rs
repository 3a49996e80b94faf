//! The executable ledger.
//!
//! [`AtbashVoting`] owns the whole state of one sale: the registry, the supply and the
//! price, a record for each participant and a tally for each candidate. Every operation
//! takes what it needs as plain values, the caller's identity and the payment among
//! them, and either goes through as a whole or is turned down and changes nothing.
//!
//! A participant's budget is the tokens bought less the tokens spent on all candidates
//! together, and it is checked on every vote. A repeated purchase replaces the tokens
//! bought; it does not add to them.

use vstd::prelude::*;
use crate::account::AccountId;
use crate::error::Error;
use crate::laws::{
    empty_obeys_invariant, purchase_keeps_invariant, setup_keeps_invariant, spending_is_covered,
    tally_is_covered, vote_keeps_invariant,
};
use crate::lemmas::{
    column_is_covered, first_position_is_unique, slot_is_unique, vote_grows_record,
};
use crate::model::{
    column_total, drawn_total, holds_account, is_first_position, rows_fit, Ledger, Participant,
    Step,
};
use crate::sums::{amounts, checked_sum, sum_of, total, zero_row};
use crate::transfer::Transfer;
use crate::voter::{column_sum, records_hold, records_of, Voter};

verus! {

/// The candidate names as plain character sequences.
pub open spec fn names_of(list: Seq<String>) -> Seq<Seq<char>> {
    Seq::new(list.len(), |i: int| list[i]@)
}

/// A token sale with a vote: the registered candidates, the supply and its price, one
/// record per participant, and one tally per candidate.
#[derive(Debug, PartialEq, Eq)]
pub struct AtbashVoting {
    votes_received: Vec<u128>,
    voter_info: Vec<Voter>,
    candidate_list: Vec<String>,
    total_tokens: u128,
    balance_tokens: u128,
    token_price: u128,
}

impl View for AtbashVoting {
    type V = Ledger;

    closed spec fn view(&self) -> Ledger {
        Ledger {
            candidates: names_of(self.candidate_list@),
            total_tokens: self.total_tokens as nat,
            balance_tokens: self.balance_tokens as nat,
            token_price: self.token_price as nat,
            participants: records_of(self.voter_info@),
            tally: amounts(self.votes_received@),
        }
    }
}

impl AtbashVoting {
    /// Whether the stored state obeys the ledger's invariant. Every constructor
    /// establishes this and every operation keeps it.
    pub open spec fn wf(&self) -> bool {
        self@.inv()
    }

    /// A ledger on which nothing was set up yet: no candidates, no supply, nobody known.
    pub fn new() -> (ledger: AtbashVoting)
        ensures
            ledger.wf(),
            ledger@ == Ledger::empty(),
    {
        let ledger = AtbashVoting {
            votes_received: Vec::new(),
            voter_info: Vec::new(),
            candidate_list: Vec::new(),
            total_tokens: 0,
            balance_tokens: 0,
            token_price: 0,
        };
        proof {
            assert(ledger@ =~= Ledger::empty());
            empty_obeys_invariant();
        }
        ledger
    }

    /// The first place at which `candidate` is registered, if it is.
    fn position_of(&self, candidate: &String) -> (found: Option<usize>)
        ensures
            match found {
                Some(k) => is_first_position(self@.candidates, candidate@, k as int),
                None => !self@.is_candidate(candidate@),
            },
    {
        let mut i: usize = 0;
        while i < self.candidate_list.len()
            invariant
                0 <= i <= self.candidate_list.len(),
                forall|j: int| 0 <= j < i ==> self@.candidates[j] != candidate@,
            decreases self.candidate_list.len() - i,
        {
            if self.candidate_list[i] == *candidate {
                return Some(i);
            }
            i += 1;
        }
        None
    }

    /// Whether `candidate` is one of the registered names.
    pub fn valid_candidate(&self, candidate: String) -> (valid: bool)
        ensures
            valid == self@.is_candidate(candidate@),
    {
        let found = self.position_of(&candidate);
        proof {
            if let Some(k) = found {
                first_position_is_unique(self@.candidates, candidate@, k as int);
            }
        }
        found.is_some()
    }

    /// The index of `candidate` in the registry: the first place at which the name was
    /// registered. A name that is not registered is answered with
    /// [`Error::InvalidCandidate`].
    pub fn index_of_candidate(&self, candidate: String) -> (index: Result<u128, Error>)
        ensures
            match index {
                Ok(i) => self@.is_candidate(candidate@) && i == self@.index_of(candidate@),
                Err(e) => !self@.is_candidate(candidate@) && e == Error::InvalidCandidate,
            },
    {
        match self.position_of(&candidate) {
            Some(k) => {
                proof {
                    first_position_is_unique(self@.candidates, candidate@, k as int);
                }
                Ok(k as u128)
            },
            None => Err(Error::InvalidCandidate),
        }
    }

    /// The place of `who`'s record, if there is one.
    fn find_voter(&self, who: &AccountId) -> (found: Option<usize>)
        ensures
            match found {
                Some(k) => holds_account(self@.participants, who@, k as int),
                None => !self@.knows(who@),
            },
    {
        let mut k: usize = 0;
        while k < self.voter_info.len()
            invariant
                0 <= k <= self.voter_info.len(),
                forall|j: int| 0 <= j < k ==> !holds_account(self@.participants, who@, j),
            decreases self.voter_info.len() - k,
        {
            let address = self.voter_info[k].voter_address();
            if address.same_as(who) {
                return Some(k);
            }
            k += 1;
        }
        None
    }

    /// Sets the sale up: `tokens` are issued and all of them are for sale at
    /// `price_per_token`, and `candidate_names` become the candidates, in the order
    /// given. Nothing is asked of the three: the list may be empty or repeat a name (a
    /// repeated name is voted for at its first place), and the price may be zero.
    ///
    /// The sale is set up before anyone has bought or voted.
    pub fn voting(&mut self, tokens: u128, price_per_token: u128, candidate_names: Vec<String>)
        requires
            old(self).wf(),
            old(self)@.participants.len() == 0,
        ensures
            final(self).wf(),
            final(self)@ == old(self)@.setup(
                tokens as nat,
                price_per_token as nat,
                names_of(candidate_names@),
            ),
    {
        proof {
            setup_keeps_invariant(
                self@,
                tokens as nat,
                price_per_token as nat,
                names_of(candidate_names@),
            );
        }
        self.votes_received = zero_row(candidate_names.len());
        self.candidate_list = candidate_names;
        self.total_tokens = tokens;
        self.balance_tokens = tokens;
        self.token_price = price_per_token;
        proof {
            assert(self@ =~= old(self)@.setup(
                tokens as nat,
                price_per_token as nat,
                names_of(candidate_names@),
            ));
        }
    }

    /// Sells `caller` the whole tokens that `transferred_value` pays for, at the price
    /// that was set up. They leave the unsold balance and become `caller`'s tokens
    /// bought, in place of what an earlier purchase had allotted; what `caller` has
    /// spent stays on record. The answer is the number of tokens sold.
    ///
    /// A payment for more tokens than are left is refused with
    /// [`Error::InsufficientSupply`], and nothing changes.
    ///
    /// The price must be above zero, since the payment is divided by it.
    pub fn buy(&mut self, caller: AccountId, transferred_value: u128) -> (sold: Result<u128, Error>)
        requires
            old(self).wf(),
            old(self)@.token_price > 0,
        ensures
            final(self).wf(),
            final(self)@ == old(self)@.after(
                Step::Purchase { account: caller@, payment: transferred_value as nat },
            ),
            ({
                let tokens = old(self)@.tokens_for(transferred_value as nat);
                sold == if tokens > old(self)@.balance_tokens {
                    Err::<u128, Error>(Error::InsufficientSupply)
                } else {
                    Ok::<u128, Error>(tokens as u128)
                }
            }),
            sold is Err ==> *final(self) == *old(self),
    {
        let tokens_to_buy = transferred_value / self.token_price;
        if tokens_to_buy > self.balance_tokens {
            return Err(Error::InsufficientSupply);
        }
        proof {
            purchase_keeps_invariant(self@, caller@, tokens_to_buy as nat);
        }
        match self.find_voter(&caller) {
            Some(k) => {
                proof {
                    slot_is_unique(self@, caller@, k as int);
                }
                self.voter_info[k].set_token_bought(tokens_to_buy);
            },
            None => {
                let record = Voter::new(caller, tokens_to_buy, Vec::new());
                proof {
                    assert(record@.spend =~= Seq::<nat>::empty());
                }
                self.voter_info.push(record);
            },
        }
        self.balance_tokens = self.balance_tokens - tokens_to_buy;
        proof {
            assert(self@.participants =~= old(self)@.purchase(
                caller@,
                tokens_to_buy as nat,
            ).participants);
            assert(self@ =~= old(self)@.purchase(caller@, tokens_to_buy as nat));
        }
        Ok(tokens_to_buy)
    }

    /// The tokens sold so far.
    pub fn token_sold(&self) -> (sold: u128)
        requires
            self.wf(),
        ensures
            sold == self@.tokens_sold(),
            self@.balance_tokens + sold == self@.total_tokens,
    {
        self.total_tokens - self.balance_tokens
    }

    /// The order that moves the whole unsold balance to `account`. The ledger itself
    /// stays as it is; carrying the order out is the host's part, and
    /// [`Transfer::settle`] says what its answer means.
    pub fn transfer_to(&self, account: AccountId) -> (order: Transfer)
        ensures
            order.destination == account,
            order.value == self@.balance_tokens,
    {
        Transfer { destination: account, value: self.balance_tokens }
    }

    /// Spends `votes_in_token` of `caller`'s tokens on `candidate`: the caller's entry
    /// for the candidate and the candidate's tally both grow by that amount, or neither
    /// does.
    ///
    /// The vote is refused, and nothing changes, with
    /// - [`Error::InvalidCandidate`] where `candidate` is not registered;
    /// - [`Error::InvariantViolation`] where the caller's record shows more spent than
    ///   bought (a later, smaller purchase has replaced the amount bought);
    /// - [`Error::InsufficientBudget`] where the caller has fewer than `votes_in_token`
    ///   tokens left, counting every earlier vote.
    ///
    /// A caller without a record has bought nothing and can vote zero tokens only.
    pub fn vote_for_candidate(
        &mut self,
        caller: AccountId,
        candidate: String,
        votes_in_token: u128,
    ) -> (outcome: Result<(), Error>)
        requires
            old(self).wf(),
        ensures
            final(self).wf(),
            final(self)@ == old(self)@.after(
                Step::Vote {
                    account: caller@,
                    candidate: candidate@,
                    amount: votes_in_token as nat,
                },
            ),
            outcome == match old(self)@.vote_refusal(caller@, candidate@, votes_in_token as nat) {
                Some(reason) => Err::<(), Error>(reason),
                None => Ok::<(), Error>(()),
            },
            outcome is Err ==> *final(self) == *old(self),
    {
        let index = match self.position_of(&candidate) {
            Some(i) => i,
            None => {
                return Err(Error::InvalidCandidate);
            },
        };
        proof {
            first_position_is_unique(self@.candidates, candidate@, index as int);
        }
        let slot = self.find_voter(&caller);
        let (bought, spent) = match slot {
            Some(k) => {
                proof {
                    slot_is_unique(self@, caller@, k as int);
                    spending_is_covered(self@, k as int);
                }
                let record = &self.voter_info[k];
                (record.token_bought(), sum_of(record.tokens_used_per_candidate()))
            },
            None => (0, 0),
        };
        if spent > bought {
            return Err(Error::InvariantViolation);
        }
        if votes_in_token > bought - spent {
            return Err(Error::InsufficientBudget);
        }
        let ghost after = self@.cast_vote(caller@, candidate@, votes_in_token as nat);
        proof {
            vote_grows_record(self@, caller@, candidate@, votes_in_token as nat);
            vote_keeps_invariant(self@, caller@, candidate@, votes_in_token as nat);
            tally_is_covered(after, index as int);
        }
        let width = self.candidate_list.len();
        match slot {
            Some(k) => {
                self.voter_info[k].record_vote(width, index, votes_in_token);
            },
            None => {
                let mut record = Voter::new(caller, 0, Vec::new());
                proof {
                    assert(record@ =~= Participant::newcomer(caller@));
                }
                record.record_vote(width, index, votes_in_token);
                self.voter_info.push(record);
            },
        }
        let tally = self.votes_received[index];
        self.votes_received.set(index, tally + votes_in_token);
        proof {
            assert(self@.participants =~= after.participants);
            assert(self@.tally =~= after.tally);
            assert(self@ =~= after);
        }
        Ok(())
    }

    /// The sum of `tokens_used_per_candidate`, or `None` where the sum is too large
    /// for a `u128`.
    pub fn total_tokens_used(&self, tokens_used_per_candidate: Vec<u128>) -> (used: Option<u128>)
        ensures
            match used {
                Some(sum) => sum == total(amounts(tokens_used_per_candidate@)),
                None => total(amounts(tokens_used_per_candidate@)) > u128::MAX,
            },
    {
        checked_sum(&tokens_used_per_candidate)
    }

    /// The tokens spent on `candidate` by all participants together; zero while nobody
    /// has voted for it. `candidate` must be a registered name.
    pub fn total_votes_for(&self, candidate: String) -> (votes: u128)
        requires
            self.wf(),
            self@.is_candidate(candidate@),
        ensures
            votes == self@.tally_of(candidate@),
    {
        let index = self.position_of(&candidate).unwrap();
        proof {
            first_position_is_unique(self@.candidates, candidate@, index as int);
        }
        self.votes_received[index]
    }

    /// What the ledger holds of `user`: the tokens bought, and the tokens spent on each
    /// candidate in registry order. Someone who never bought or voted has bought zero
    /// and has an empty spend record; so has, for the spend record, someone who bought
    /// and has not voted yet.
    pub fn voter_details(&self, user: AccountId) -> (details: (u128, Vec<u128>))
        requires
            self.wf(),
        ensures
            details.0 == self@.participant(user@).bought,
            amounts(details.1@) == self@.participant(user@).spend,
            details.1@.len() == 0 || details.1@.len() == self@.candidates.len(),
    {
        match self.find_voter(&user) {
            Some(k) => {
                proof {
                    slot_is_unique(self@, user@, k as int);
                }
                let record = &self.voter_info[k];
                let stored = record.tokens_used_per_candidate();
                let used = stored.clone();
                proof {
                    assert(amounts(used@) =~= amounts(stored@));
                }
                (record.token_bought(), used)
            },
            None => {
                let used: Vec<u128> = Vec::new();
                proof {
                    assert(amounts(used@) =~= Seq::<nat>::empty());
                }
                (0, used)
            },
        }
    }

    /// The registered candidates, in the order in which they were given.
    pub fn all_candidates(&self) -> (names: Vec<String>)
        ensures
            names_of(names@) == self@.candidates,
    {
        let names = self.candidate_list.clone();
        proof {
            assert(names_of(names@) =~= names_of(self.candidate_list@));
        }
        names
    }

    /// The supply issued when the sale was set up.
    pub fn total_tokens(&self) -> (tokens: u128)
        ensures
            tokens == self@.total_tokens,
    {
        self.total_tokens
    }

    /// The supply that is still unsold.
    pub fn balance_tokens(&self) -> (tokens: u128)
        ensures
            tokens == self@.balance_tokens,
    {
        self.balance_tokens
    }

    /// The payment asked for one token.
    pub fn token_price(&self) -> (price: u128)
        ensures
            price == self@.token_price,
    {
        self.token_price
    }

    /// A copy of every participant's record, in order of first appearance.
    pub fn voters(&self) -> (records: Vec<Voter>)
        ensures
            records_of(records@) == self@.participants,
    {
        let mut records: Vec<Voter> = Vec::new();
        let mut k: usize = 0;
        while k < self.voter_info.len()
            invariant
                0 <= k <= self.voter_info.len(),
                records.len() == k,
                forall|j: int| 0 <= j < k ==> records[j]@ == self.voter_info[j]@,
            decreases self.voter_info.len() - k,
        {
            let record = &self.voter_info[k];
            let stored = record.tokens_used_per_candidate();
            let used = stored.clone();
            proof {
                assert(amounts(used@) =~= amounts(stored@));
            }
            records.push(Voter::new(record.voter_address(), record.token_bought(), used));
            k += 1;
        }
        proof {
            assert(records_of(records@) =~= self@.participants);
        }
        records
    }

    /// Puts a ledger together again from what [`AtbashVoting::all_candidates`],
    /// [`AtbashVoting::total_tokens`], [`AtbashVoting::balance_tokens`],
    /// [`AtbashVoting::token_price`] and [`AtbashVoting::voters`] gave out. The tallies
    /// are summed from the records.
    ///
    /// Parts that no ledger can hold are refused with [`Error::InvariantViolation`]: an
    /// unsold balance above the supply, two records for one identity, a spend record
    /// that is neither empty nor one entry per candidate, or records that stand for more
    /// tokens than were sold.
    pub fn restore(
        candidate_list: Vec<String>,
        total_tokens: u128,
        balance_tokens: u128,
        token_price: u128,
        voter_info: Vec<Voter>,
    ) -> (restored: Result<AtbashVoting, Error>)
        ensures
            ({
                let parts = Ledger::rebuilt(
                    names_of(candidate_list@),
                    total_tokens as nat,
                    balance_tokens as nat,
                    token_price as nat,
                    records_of(voter_info@),
                );
                match restored {
                    Ok(ledger) => parts.inv() && ledger.wf() && ledger@ == parts,
                    Err(reason) => !parts.inv() && reason == Error::InvariantViolation,
                }
            }),
    {
        let ghost records = records_of(voter_info@);
        let width = candidate_list.len();
        if balance_tokens > total_tokens {
            return Err(Error::InvariantViolation);
        }
        if !records_hold(&voter_info, width, total_tokens - balance_tokens) {
            return Err(Error::InvariantViolation);
        }
        let mut votes_received: Vec<u128> = Vec::new();
        let mut i: usize = 0;
        while i < width
            invariant
                0 <= i <= width,
                votes_received.len() == i,
                records == records_of(voter_info@),
                rows_fit(records, width as nat),
                drawn_total(records) <= u128::MAX,
                forall|c: int| 0 <= c < i ==> votes_received[c] == column_total(records, c),
            decreases width - i,
        {
            proof {
                column_is_covered(records, i as int);
            }
            votes_received.push(column_sum(&voter_info, width, i));
            i += 1;
        }
        let ledger = AtbashVoting {
            votes_received,
            voter_info,
            candidate_list,
            total_tokens,
            balance_tokens,
            token_price,
        };
        proof {
            assert(ledger@ =~= Ledger::rebuilt(
                names_of(candidate_list@),
                total_tokens as nat,
                balance_tokens as nat,
                token_price as nat,
                records,
            ));
        }
        Ok(ledger)
    }
}

} // verus!
