//! Supporting facts: how names and accounts are looked up, and what a changed record
//! does to the sums that the invariant speaks of.

use vstd::prelude::*;
use crate::model::{
    column, column_total, drawn_by_each, drawn_total, first_position, holds_account,
    is_first_position, one_record_each, Ledger, Participant,
};
use crate::sums::{
    total, total_bounds_entry, total_monotone, total_of_zeros, total_push, total_update,
};

verus! {

proof fn first_position_exists(names: Seq<Seq<char>>, name: Seq<char>, i: int)
    requires
        0 <= i < names.len(),
        names[i] == name,
    ensures
        exists|k: int| is_first_position(names, name, k),
    decreases i,
{
    if forall|j: int| 0 <= j < i ==> names[j] != name {
        assert(is_first_position(names, name, i));
    } else {
        let j = choose|j: int| 0 <= j < i && names[j] == name;
        first_position_exists(names, name, j);
    }
}

/// A name that occurs in `names` has a first position there.
pub proof fn first_position_of_member(names: Seq<Seq<char>>, name: Seq<char>)
    requires
        names.contains(name),
    ensures
        is_first_position(names, name, first_position(names, name)),
{
    let i = choose|i: int| 0 <= i < names.len() && names[i] == name;
    first_position_exists(names, name, i);
}

/// A name has at most one first position.
pub proof fn first_position_is_unique(names: Seq<Seq<char>>, name: Seq<char>, k: int)
    requires
        is_first_position(names, name, k),
    ensures
        names.contains(name),
        first_position(names, name) == k,
{
    let c = first_position(names, name);
    assert(is_first_position(names, name, c));
    if c < k {
        assert(names[c] != name);
    } else if k < c {
        assert(names[k] != name);
    }
}

/// Where no identity has two records, the record in place `k` is the one that a lookup
/// of its account finds.
pub proof fn slot_is_unique(l: Ledger, account: Seq<u8>, k: int)
    requires
        one_record_each(l.participants),
        holds_account(l.participants, account, k),
    ensures
        l.knows(account),
        l.slot(account) == k,
        l.participant(account) == l.participants[k],
{
    let c = l.slot(account);
    assert(holds_account(l.participants, account, c));
    if c < k {
        assert(l.participants[c].account != l.participants[k].account);
    } else if k < c {
        assert(l.participants[k].account != l.participants[c].account);
    }
}

/// The record that a lookup of `account` finds carries that account, and it stands for
/// no tokens where the ledger holds no record for the account.
pub proof fn participant_has_account(l: Ledger, account: Seq<u8>)
    ensures
        l.participant(account).account == account,
        l.knows(account) ==> holds_account(l.participants, account, l.slot(account)),
        !l.knows(account) ==> l.participant(account).drawn() == 0 && forall|i: int|
            l.participant(account).spent_on(i) == 0,
{
}

/// Recording `record` for its own account keeps the identities apart, and changes the
/// sums by the difference between `record` and what the account had before.
pub proof fn sums_after_recording(l: Ledger, account: Seq<u8>, record: Participant, i: int)
    requires
        one_record_each(l.participants),
        record.account == account,
    ensures
        one_record_each(l.recorded(account, record)),
        column_total(l.recorded(account, record), i) == column_total(l.participants, i)
            - l.participant(account).spent_on(i) + record.spent_on(i),
        drawn_total(l.recorded(account, record)) == drawn_total(l.participants) - l.participant(
            account,
        ).drawn() + record.drawn(),
{
    let before = l.participants;
    let after = l.recorded(account, record);
    participant_has_account(l, account);
    if l.knows(account) {
        let k = l.slot(account);
        assert(column(after, i) =~= column(before, i).update(k, record.spent_on(i)));
        total_update(column(before, i), k, record.spent_on(i));
        assert(drawn_by_each(after) =~= drawn_by_each(before).update(k, record.drawn()));
        total_update(drawn_by_each(before), k, record.drawn());
    } else {
        assert(column(after, i) =~= column(before, i).push(record.spent_on(i)));
        total_push(column(before, i), record.spent_on(i));
        assert(drawn_by_each(after) =~= drawn_by_each(before).push(record.drawn()));
        total_push(drawn_by_each(before), record.drawn());
        assert forall|a: int, b: int| 0 <= a < b < after.len() implies (#[trigger] after[a]).account
            != (#[trigger] after[b]).account by {
            if b == before.len() {
                assert(!holds_account(before, account, a));
            }
        }
    }
}

/// After `record` was recorded for its own account, a lookup of that account finds
/// `record`, and a lookup of any other account finds what it found before.
pub proof fn lookups_after_recording(
    l: Ledger,
    after: Ledger,
    account: Seq<u8>,
    record: Participant,
    other: Seq<u8>,
)
    requires
        one_record_each(l.participants),
        record.account == account,
        after.participants == l.recorded(account, record),
    ensures
        after.participant(account) == record,
        other != account ==> after.participant(other) == l.participant(other),
{
    sums_after_recording(l, account, record, 0);
    participant_has_account(l, account);
    let place = if l.knows(account) {
        l.slot(account)
    } else {
        l.participants.len() as int
    };
    assert(holds_account(after.participants, account, place));
    slot_is_unique(after, account, place);
    if other != account {
        if l.knows(other) {
            let k = l.slot(other);
            assert(holds_account(after.participants, other, k));
            slot_is_unique(after, other, k);
        } else {
            if after.knows(other) {
                let k = after.slot(other);
                assert(holds_account(l.participants, other, k));
            }
        }
    }
}

/// What a vote that is not refused does to the voter's record: the row has one entry
/// per candidate, the entry for the candidate and the total spent grow by the amount,
/// and the total stays within what was bought.
pub proof fn vote_grows_record(l: Ledger, account: Seq<u8>, name: Seq<char>, amount: nat)
    requires
        l.inv(),
        l.vote_refusal(account, name, amount) is None,
    ensures
        is_first_position(l.candidates, name, l.index_of(name)),
        ({
            let before = l.participant(account);
            let after = before.with_vote(l.candidates.len(), l.index_of(name), amount);
            &&& before.row(l.candidates.len()).len() == l.candidates.len()
            &&& after.spend.len() == l.candidates.len()
            &&& after.account == account
            &&& after.bought == before.bought
            &&& after.spent() == before.spent() + amount
            &&& after.within_budget()
            &&& before.spent_on(l.index_of(name)) + amount <= before.bought
            &&& after.drawn() == before.drawn()
            &&& forall|c: int|
                0 <= c < l.candidates.len() ==> #[trigger] after.spent_on(c) == before.spent_on(c)
                    + (if c == l.index_of(name) {
                    amount
                } else {
                    0
                })
        }),
{
    let width = l.candidates.len();
    let i = l.index_of(name);
    let before = l.participant(account);
    first_position_of_member(l.candidates, name);
    participant_has_account(l, account);
    let row = before.row(width);
    if before.spend.len() == 0 {
        total_of_zeros(width);
        assert(before.spend =~= Seq::<nat>::empty());
    }
    assert(row.len() == width);
    assert(total(row) == before.spent());
    total_update(row, i, row[i] + amount);
    total_bounds_entry(row, i);
}

/// What was spent on one candidate is no more than what stands behind the records.
pub proof fn column_is_covered(records: Seq<Participant>, i: int)
    ensures
        column_total(records, i) <= drawn_total(records),
{
    let spent_here = column(records, i);
    let behind = drawn_by_each(records);
    assert forall|k: int| 0 <= k < spent_here.len() implies spent_here[k] <= behind[k] by {
        let record = records[k];
        if 0 <= i < record.spend.len() {
            total_bounds_entry(record.spend, i);
        }
    }
    total_monotone(spent_here, behind);
}

} // verus!
