//! The stored record of one participant, and what a list of such records adds up to.

use vstd::prelude::*;
use crate::account::AccountId;
use crate::model::{
    column, column_total, drawn_by_each, drawn_total, one_record_each, rows_fit, Participant,
};
use crate::sums::{
    amounts, checked_sum, total, total_take_bounded, total_take_step, zero_row,
};

verus! {

/// What the ledger stores for one participant: who it is, how many tokens the latest
/// purchase allotted, and how many were spent on each candidate.
#[derive(Debug, PartialEq, Eq)]
pub struct Voter {
    voter_address: AccountId,
    token_bought: u128,
    tokens_used_per_candidate: Vec<u128>,
}

impl View for Voter {
    type V = Participant;

    closed spec fn view(&self) -> Participant {
        Participant {
            account: self.voter_address@,
            bought: self.token_bought as nat,
            spend: amounts(self.tokens_used_per_candidate@),
        }
    }
}

impl Voter {
    /// The record of `voter_address` with the given purchase and spending.
    pub fn new(
        voter_address: AccountId,
        token_bought: u128,
        tokens_used_per_candidate: Vec<u128>,
    ) -> (voter: Voter)
        ensures
            voter@ == (Participant {
                account: voter_address@,
                bought: token_bought as nat,
                spend: amounts(tokens_used_per_candidate@),
            }),
    {
        Voter { voter_address, token_bought, tokens_used_per_candidate }
    }

    /// Whose record this is.
    pub fn voter_address(&self) -> (address: AccountId)
        ensures
            address@ == self@.account,
    {
        self.voter_address
    }

    /// The tokens that the latest purchase allotted.
    pub fn token_bought(&self) -> (tokens: u128)
        ensures
            tokens == self@.bought,
    {
        self.token_bought
    }

    /// The tokens spent on each candidate, in registry order; empty before the first vote.
    pub fn tokens_used_per_candidate(&self) -> (used: &Vec<u128>)
        ensures
            amounts(used@) == self@.spend,
    {
        &self.tokens_used_per_candidate
    }

    /// Replaces the tokens bought by `tokens`; what was spent stays.
    pub(crate) fn set_token_bought(&mut self, tokens: u128)
        ensures
            final(self)@ == (Participant { bought: tokens as nat, ..old(self)@ }),
    {
        self.token_bought = tokens;
    }

    /// Adds `amount` to what was spent on the candidate at `index` of `width`; a first
    /// vote starts the row from zeros.
    pub(crate) fn record_vote(&mut self, width: usize, index: usize, amount: u128)
        requires
            index < width,
            old(self)@.spend.len() == 0 || old(self)@.spend.len() == width,
            old(self)@.spent_on(index as int) + amount <= u128::MAX,
        ensures
            final(self)@ == old(self)@.with_vote(width as nat, index as int, amount as nat),
    {
        if self.tokens_used_per_candidate.len() == 0 {
            self.tokens_used_per_candidate = zero_row(width);
        }
        proof {
            let row = old(self)@.row(width as nat);
            assert(amounts(self.tokens_used_per_candidate@) =~= row);
            assert(amounts(self.tokens_used_per_candidate@)[index as int] == row[index as int]);
        }
        let had = self.tokens_used_per_candidate[index];
        self.tokens_used_per_candidate.set(index, had + amount);
        proof {
            assert(self@.spend =~= old(self)@.with_vote(
                width as nat,
                index as int,
                amount as nat,
            ).spend);
        }
    }
}

/// The stored records as the model sees them.
pub open spec fn records_of(list: Seq<Voter>) -> Seq<Participant> {
    Seq::new(list.len(), |k: int| list[k]@)
}

/// Whether `voter_info` can be the records of a ledger with `width` candidates and
/// `sold` tokens sold: no identity has two of them, each spend record is empty or has
/// `width` entries, and together they stand for no more than `sold` tokens.
pub(crate) fn records_hold(voter_info: &Vec<Voter>, width: usize, sold: u128) -> (hold: bool)
    ensures
        hold == (one_record_each(records_of(voter_info@)) && rows_fit(
            records_of(voter_info@),
            width as nat,
        ) && drawn_total(records_of(voter_info@)) <= sold),
{
    let ghost records = records_of(voter_info@);
    let mut behind: u128 = 0;
    let mut k: usize = 0;
    while k < voter_info.len()
        invariant
            0 <= k <= voter_info.len(),
            records == records_of(voter_info@),
            behind == total(drawn_by_each(records).take(k as int)),
            behind <= sold,
            forall|a: int, b: int|
                0 <= a < b < k ==> (#[trigger] records[a]).account != (
                #[trigger] records[b]).account,
            forall|j: int|
                0 <= j < k ==> {
                    let len = (#[trigger] records[j]).spend.len();
                    len == 0 || len == width
                },
        decreases voter_info.len() - k,
    {
        let record = &voter_info[k];
        let used = record.tokens_used_per_candidate();
        proof {
            assert(records[k as int] == record@);
            assert(records[k as int].spend.len() == used@.len());
            total_take_step(drawn_by_each(records), k as int);
            total_take_bounded(drawn_by_each(records), k + 1);
        }
        if used.len() != 0 && used.len() != width {
            return false;
        }
        let address = record.voter_address();
        let mut j: usize = 0;
        while j < k
            invariant
                0 <= j <= k < voter_info.len(),
                records == records_of(voter_info@),
                address@ == records[k as int].account,
                forall|m: int| 0 <= m < j ==> (#[trigger] records[m]).account != address@,
            decreases k - j,
        {
            let earlier = voter_info[j].voter_address();
            if earlier.same_as(&address) {
                proof {
                    assert(records[j as int].account == records[k as int].account);
                }
                return false;
            }
            j += 1;
        }
        let spent = match checked_sum(used) {
            Some(spent) => spent,
            None => {
                proof {
                    assert(drawn_by_each(records)[k as int] > u128::MAX);
                }
                return false;
            },
        };
        let bought = record.token_bought();
        let stands_for = if spent > bought {
            spent
        } else {
            bought
        };
        proof {
            assert(drawn_by_each(records)[k as int] == stands_for);
        }
        if stands_for > sold - behind {
            return false;
        }
        behind = behind + stands_for;
        k += 1;
    }
    proof {
        assert(drawn_by_each(records).take(voter_info.len() as int) =~= drawn_by_each(records));
    }
    true
}

/// What the records show as spent on the candidate at index `i` of `width`, by all
/// participants together.
pub(crate) fn column_sum(voter_info: &Vec<Voter>, width: usize, i: usize) -> (sum: u128)
    requires
        i < width,
        rows_fit(records_of(voter_info@), width as nat),
        column_total(records_of(voter_info@), i as int) <= u128::MAX,
    ensures
        sum == column_total(records_of(voter_info@), i as int),
{
    let ghost records = records_of(voter_info@);
    let ghost spent_here = column(records, i as int);
    let mut sum: u128 = 0;
    let mut k: usize = 0;
    while k < voter_info.len()
        invariant
            0 <= k <= voter_info.len(),
            i < width,
            records == records_of(voter_info@),
            rows_fit(records, width as nat),
            spent_here == column(records, i as int),
            total(spent_here) <= u128::MAX,
            sum == total(spent_here.take(k as int)),
        decreases voter_info.len() - k,
    {
        let used = voter_info[k].tokens_used_per_candidate();
        proof {
            assert(records[k as int] == voter_info[k as int]@);
            assert(records[k as int].spend.len() == used@.len());
            total_take_step(spent_here, k as int);
            total_take_bounded(spent_here, k + 1);
        }
        let here = if used.len() == 0 {
            0
        } else {
            used[i]
        };
        proof {
            assert(here == spent_here[k as int]) by {
                if used.len() != 0 {
                    assert(amounts(used@)[i as int] == used@[i as int]);
                }
            }
        }
        sum = sum + here;
        k += 1;
    }
    proof {
        assert(spent_here.take(voter_info.len() as int) =~= spent_here);
    }
    sum
}

} // verus!
