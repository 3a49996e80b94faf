//! The ledger as a mathematical object.
//!
//! [`Ledger`] holds what the voting ledger records, in unbounded numbers and plain
//! sequences, and says how each operation changes it. The contracts of the executable
//! ledger are written against it.

use vstd::prelude::*;
use crate::error::Error;
use crate::sums::{total, zeros};

verus! {

/// What the ledger records of one participant.
#[verifier::ext_equal]
pub struct Participant {
    /// The participant's identity.
    pub account: Seq<u8>,
    /// The tokens that the participant's latest purchase allotted.
    pub bought: nat,
    /// The tokens spent on each candidate, in registry order; empty until the first vote.
    pub spend: Seq<nat>,
}

impl Participant {
    /// The record of an identity that has neither bought nor voted.
    pub open spec fn newcomer(account: Seq<u8>) -> Participant {
        Participant { account, bought: 0, spend: Seq::empty() }
    }

    /// The tokens spent so far, over all candidates.
    pub open spec fn spent(self) -> nat {
        total(self.spend)
    }

    /// The tokens spent on the candidate at index `i`.
    pub open spec fn spent_on(self, i: int) -> nat {
        if 0 <= i < self.spend.len() {
            self.spend[i]
        } else {
            0
        }
    }

    /// Whether the participant has spent no more than was bought.
    pub open spec fn within_budget(self) -> bool {
        self.spent() <= self.bought
    }

    /// The tokens of the sale that stand behind this record: what was bought or, where
    /// a later, smaller purchase has replaced the amount bought, what was already spent.
    pub open spec fn drawn(self) -> nat {
        if self.spent() > self.bought {
            self.spent()
        } else {
            self.bought
        }
    }

    /// The spend record over `width` candidates, a first vote starting from zeros.
    pub open spec fn row(self, width: nat) -> Seq<nat> {
        if self.spend.len() == 0 {
            zeros(width)
        } else {
            self.spend
        }
    }

    /// The record after `amount` more tokens went to the candidate at index `i` of `width`.
    pub open spec fn with_vote(self, width: nat, i: int, amount: nat) -> Participant {
        Participant { spend: self.row(width).update(i, self.row(width)[i] + amount), ..self }
    }
}

/// Whether `k` is the first place at which `name` stands in `names`.
pub open spec fn is_first_position(names: Seq<Seq<char>>, name: Seq<char>, k: int) -> bool {
    &&& 0 <= k < names.len()
    &&& names[k] == name
    &&& forall|j: int| 0 <= j < k ==> names[j] != name
}

/// The first place at which `name` stands in `names`; meaningful only where it occurs.
pub open spec fn first_position(names: Seq<Seq<char>>, name: Seq<char>) -> int {
    choose|k: int| is_first_position(names, name, k)
}

/// Whether no name stands twice in `names`.
pub open spec fn names_are_distinct(names: Seq<Seq<char>>) -> bool {
    forall|a: int, b: int| 0 <= a < b < names.len() ==> names[a] != names[b]
}

/// Whether the record at place `k` of `records` belongs to `account`.
pub open spec fn holds_account(records: Seq<Participant>, account: Seq<u8>, k: int) -> bool {
    0 <= k < records.len() && records[k].account == account
}

/// Whether no identity has two of the `records`.
pub open spec fn one_record_each(records: Seq<Participant>) -> bool {
    forall|a: int, b: int|
        0 <= a < b < records.len() ==> (#[trigger] records[a]).account != (
        #[trigger] records[b]).account
}

/// Whether each spend record is empty or has `width` entries.
pub open spec fn rows_fit(records: Seq<Participant>, width: nat) -> bool {
    forall|k: int|
        0 <= k < records.len() ==> {
            let len = (#[trigger] records[k]).spend.len();
            len == 0 || len == width
        }
}

/// What each participant has spent on the candidate at index `i`.
pub open spec fn column(records: Seq<Participant>, i: int) -> Seq<nat> {
    Seq::new(records.len(), |k: int| records[k].spent_on(i))
}

/// The tokens that all participants together have spent on the candidate at index `i`.
pub open spec fn column_total(records: Seq<Participant>, i: int) -> nat {
    total(column(records, i))
}

/// What stands behind each participant's record (see [`Participant::drawn`]).
pub open spec fn drawn_by_each(records: Seq<Participant>) -> Seq<nat> {
    Seq::new(records.len(), |k: int| records[k].drawn())
}

/// The tokens of the sale that stand behind all records together.
pub open spec fn drawn_total(records: Seq<Participant>) -> nat {
    total(drawn_by_each(records))
}

/// The whole state of a voting ledger.
#[verifier::ext_equal]
pub struct Ledger {
    /// The registered candidates, in the order in which they were given.
    pub candidates: Seq<Seq<char>>,
    /// The supply issued when the sale was set up.
    pub total_tokens: nat,
    /// The supply that is still unsold.
    pub balance_tokens: nat,
    /// The payment asked for one token.
    pub token_price: nat,
    /// Every identity that has bought or voted, in order of first appearance.
    pub participants: Seq<Participant>,
    /// The tokens spent on each candidate by all participants together, in registry order.
    pub tally: Seq<nat>,
}

impl Ledger {
    /// The ledger before anything was set up: no candidates, no supply, no participants.
    pub open spec fn empty() -> Ledger {
        Ledger {
            candidates: Seq::empty(),
            total_tokens: 0,
            balance_tokens: 0,
            token_price: 0,
            participants: Seq::empty(),
            tally: Seq::empty(),
        }
    }

    /// The ledger that the given registry, terms of sale and records make up, each
    /// tally summed from the records.
    pub open spec fn rebuilt(
        candidates: Seq<Seq<char>>,
        total_tokens: nat,
        balance_tokens: nat,
        token_price: nat,
        participants: Seq<Participant>,
    ) -> Ledger {
        Ledger {
            candidates,
            total_tokens,
            balance_tokens,
            token_price,
            participants,
            tally: Seq::new(candidates.len(), |i: int| column_total(participants, i)),
        }
    }

    /// Whether `name` is a registered candidate.
    pub open spec fn is_candidate(self, name: Seq<char>) -> bool {
        self.candidates.contains(name)
    }

    /// The index of the candidate `name`: the first place at which it was registered.
    pub open spec fn index_of(self, name: Seq<char>) -> int {
        first_position(self.candidates, name)
    }

    /// Whether `account` has a record.
    pub open spec fn knows(self, account: Seq<u8>) -> bool {
        exists|k: int| holds_account(self.participants, account, k)
    }

    /// The place of `account`'s record; meaningful only where it has one.
    pub open spec fn slot(self, account: Seq<u8>) -> int {
        choose|k: int| holds_account(self.participants, account, k)
    }

    /// The record of `account`; that of a newcomer where the ledger holds none.
    pub open spec fn participant(self, account: Seq<u8>) -> Participant {
        if self.knows(account) {
            self.participants[self.slot(account)]
        } else {
            Participant::newcomer(account)
        }
    }

    /// The records with `record` in the place of `account`'s, or appended where
    /// `account` had none.
    pub open spec fn recorded(self, account: Seq<u8>, record: Participant) -> Seq<Participant> {
        if self.knows(account) {
            self.participants.update(self.slot(account), record)
        } else {
            self.participants.push(record)
        }
    }

    /// The tokens sold so far.
    pub open spec fn tokens_sold(self) -> int {
        self.total_tokens - self.balance_tokens
    }

    /// The tokens spent on `name` by everyone; zero for a name that is not registered.
    pub open spec fn tally_of(self, name: Seq<char>) -> nat {
        if self.is_candidate(name) {
            self.tally[self.index_of(name)]
        } else {
            0
        }
    }

    /// What holds of every ledger that the operations can reach.
    ///
    /// The unsold balance never exceeds the supply; there is one tally per candidate; no
    /// identity has two records; a spend record is empty or has one entry per candidate;
    /// each tally is the sum of what the participants spent on that candidate; and the
    /// tokens behind all records together were sold.
    pub open spec fn inv(self) -> bool {
        &&& self.balance_tokens <= self.total_tokens
        &&& self.tally.len() == self.candidates.len()
        &&& one_record_each(self.participants)
        &&& rows_fit(self.participants, self.candidates.len())
        &&& forall|i: int|
            0 <= i < self.candidates.len() ==> #[trigger] self.tally[i] == column_total(
                self.participants,
                i,
            )
        &&& drawn_total(self.participants) + self.balance_tokens <= self.total_tokens
    }

    /// The ledger after the sale was set up with `tokens` to sell at `price` each, and
    /// `names` to vote for.
    pub open spec fn setup(self, tokens: nat, price: nat, names: Seq<Seq<char>>) -> Ledger {
        Ledger {
            candidates: names,
            total_tokens: tokens,
            balance_tokens: tokens,
            token_price: price,
            participants: self.participants,
            tally: zeros(names.len()),
        }
    }

    /// The whole tokens that `payment` buys.
    pub open spec fn tokens_for(self, payment: nat) -> nat {
        (payment / self.token_price) as nat
    }

    /// The ledger after `account` bought `tokens`: they leave the unsold balance, and
    /// they replace what `account` had bought before.
    pub open spec fn purchase(self, account: Seq<u8>, tokens: nat) -> Ledger {
        let record = Participant { bought: tokens, ..self.participant(account) };
        Ledger {
            balance_tokens: (self.balance_tokens - tokens) as nat,
            participants: self.recorded(account, record),
            ..self
        }
    }

    /// Why a vote of `amount` tokens by `account` for `name` is refused, if it is.
    pub open spec fn vote_refusal(self, account: Seq<u8>, name: Seq<char>, amount: nat) -> Option<
        Error,
    > {
        let record = self.participant(account);
        if !self.is_candidate(name) {
            Some(Error::InvalidCandidate)
        } else if record.spent() > record.bought {
            Some(Error::InvariantViolation)
        } else if amount > record.bought - record.spent() {
            Some(Error::InsufficientBudget)
        } else {
            None
        }
    }

    /// The ledger after `account` spent `amount` tokens on `name`: the participant's
    /// entry for that candidate and the candidate's tally grow by `amount`.
    pub open spec fn cast_vote(self, account: Seq<u8>, name: Seq<char>, amount: nat) -> Ledger {
        let i = self.index_of(name);
        let record = self.participant(account).with_vote(self.candidates.len(), i, amount);
        Ledger {
            participants: self.recorded(account, record),
            tally: self.tally.update(i, self.tally[i] + amount),
            ..self
        }
    }
}

/// One request that changes the ledger once the sale is set up.
pub enum Step {
    /// `account` pays `payment` for tokens.
    Purchase { account: Seq<u8>, payment: nat },
    /// `account` spends `amount` tokens on `candidate`.
    Vote { account: Seq<u8>, candidate: Seq<char>, amount: nat },
}

impl Ledger {
    /// Whether `step` is turned down.
    pub open spec fn refuses(self, step: Step) -> bool {
        match step {
            Step::Purchase { account, payment } => self.tokens_for(payment) > self.balance_tokens,
            Step::Vote { account, candidate, amount } => self.vote_refusal(
                account,
                candidate,
                amount,
            ) is Some,
        }
    }

    /// The ledger after `step`: a step that is turned down leaves it as it was.
    pub open spec fn after(self, step: Step) -> Ledger {
        if self.refuses(step) {
            self
        } else {
            match step {
                Step::Purchase { account, payment } => self.purchase(
                    account,
                    self.tokens_for(payment),
                ),
                Step::Vote { account, candidate, amount } => self.cast_vote(
                    account,
                    candidate,
                    amount,
                ),
            }
        }
    }

    /// The ledger after all of `steps`, in order.
    pub open spec fn after_all(self, steps: Seq<Step>) -> Ledger
        decreases steps.len(),
    {
        if steps.len() == 0 {
            self
        } else {
            self.after_all(steps.drop_last()).after(steps.last())
        }
    }

    /// Whether `step` is a purchase by `who` that goes through and allots fewer tokens
    /// than `who` has already spent. Such a purchase replaces the tokens bought by a
    /// smaller number and so leaves `who` with more spent than bought.
    pub open spec fn undercuts_spending(self, who: Seq<u8>, step: Step) -> bool {
        match step {
            Step::Purchase { account, payment } => account == who && !self.refuses(step)
                && self.tokens_for(payment) < self.participant(who).spent(),
            Step::Vote { .. } => false,
        }
    }
}

} // verus!
