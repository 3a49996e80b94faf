//! The rules that every reachable ledger obeys, proved over [`Ledger`].
//!
//! The operations of the executable ledger are shown to act as [`Ledger::setup`],
//! [`Ledger::purchase`] and [`Ledger::cast_vote`] say, so what is proved here of those
//! holds of every ledger that the operations lead to.

use vstd::prelude::*;
use crate::lemmas::{
    column_is_covered, first_position_is_unique, first_position_of_member,
    lookups_after_recording, participant_has_account, sums_after_recording, vote_grows_record,
};
use crate::model::{
    column, column_total, drawn_by_each, drawn_total, is_first_position, names_are_distinct, Ledger,
    Participant, Step,
};
use crate::sums::total_bounds_entry;

verus! {

/// The ledger on which nothing was set up obeys the invariant.
pub proof fn empty_obeys_invariant()
    ensures
        Ledger::empty().inv(),
{
    setup_keeps_invariant(Ledger::empty(), 0, 0, Seq::empty());
    assert(Ledger::empty().setup(0, 0, Seq::empty()) =~= Ledger::empty());
}

/// Setting the sale up on a ledger without participants gives a ledger that obeys the
/// invariant, whatever the supply, the price and the names.
pub proof fn setup_keeps_invariant(l: Ledger, tokens: nat, price: nat, names: Seq<Seq<char>>)
    requires
        l.participants.len() == 0,
    ensures
        l.setup(tokens, price, names).inv(),
{
    let after = l.setup(tokens, price, names);
    assert(drawn_by_each(after.participants) =~= Seq::<nat>::empty());
    assert forall|i: int| 0 <= i < after.candidates.len() implies #[trigger] after.tally[i]
        == column_total(after.participants, i) by {
        assert(column(after.participants, i) =~= Seq::<nat>::empty());
    }
}

/// A purchase that the unsold balance covers keeps the invariant.
pub proof fn purchase_keeps_invariant(l: Ledger, account: Seq<u8>, tokens: nat)
    requires
        l.inv(),
        tokens <= l.balance_tokens,
    ensures
        l.purchase(account, tokens).inv(),
{
    let after = l.purchase(account, tokens);
    let record = Participant { bought: tokens, ..l.participant(account) };
    participant_has_account(l, account);
    sums_after_recording(l, account, record, 0);
    assert forall|i: int| 0 <= i < after.candidates.len() implies #[trigger] after.tally[i]
        == column_total(after.participants, i) by {
        sums_after_recording(l, account, record, i);
    }
}

/// A vote that is not refused keeps the invariant.
pub proof fn vote_keeps_invariant(l: Ledger, account: Seq<u8>, name: Seq<char>, amount: nat)
    requires
        l.inv(),
        l.vote_refusal(account, name, amount) is None,
    ensures
        l.cast_vote(account, name, amount).inv(),
{
    let after = l.cast_vote(account, name, amount);
    let record = l.participant(account).with_vote(l.candidates.len(), l.index_of(name), amount);
    vote_grows_record(l, account, name, amount);
    participant_has_account(l, account);
    sums_after_recording(l, account, record, 0);
    assert forall|c: int| 0 <= c < after.candidates.len() implies #[trigger] after.tally[c]
        == column_total(after.participants, c) by {
        sums_after_recording(l, account, record, c);
    }
}

/// Every step keeps the invariant, the registry and the terms of the sale, and a step
/// that is turned down changes nothing.
pub proof fn step_keeps_invariant(l: Ledger, step: Step)
    requires
        l.inv(),
    ensures
        l.after(step).inv(),
        l.after(step).candidates == l.candidates,
        l.after(step).total_tokens == l.total_tokens,
        l.after(step).token_price == l.token_price,
        l.refuses(step) ==> l.after(step) == l,
{
    if !l.refuses(step) {
        match step {
            Step::Purchase { account, payment } => {
                purchase_keeps_invariant(l, account, l.tokens_for(payment));
            },
            Step::Vote { account, candidate, amount } => {
                vote_keeps_invariant(l, account, candidate, amount);
            },
        }
    }
}

/// Whatever purchases and votes are asked for, in whatever order, the ledger they lead
/// to obeys the invariant, with the registry and the terms of the sale as they were.
pub proof fn history_keeps_invariant(l: Ledger, steps: Seq<Step>)
    requires
        l.inv(),
    ensures
        l.after_all(steps).inv(),
        l.after_all(steps).candidates == l.candidates,
        l.after_all(steps).total_tokens == l.total_tokens,
        l.after_all(steps).token_price == l.token_price,
    decreases steps.len(),
{
    if steps.len() > 0 {
        history_keeps_invariant(l, steps.drop_last());
        step_keeps_invariant(l.after_all(steps.drop_last()), steps.last());
    }
}

/// The registry is as it was given: where the names given at setup are distinct, every
/// place of the registry is the index of the name that stands there, so that each
/// candidate has a tally of its own; and no purchase or vote changes the registry.
pub proof fn registry_is_stable(l: Ledger, steps: Seq<Step>, k: int)
    requires
        l.inv(),
        names_are_distinct(l.candidates),
        0 <= k < l.candidates.len(),
    ensures
        l.after_all(steps).candidates == l.candidates,
        l.after_all(steps).is_candidate(l.candidates[k]),
        l.after_all(steps).index_of(l.candidates[k]) == k,
{
    history_keeps_invariant(l, steps);
    assert(is_first_position(l.candidates, l.candidates[k], k));
    first_position_is_unique(l.candidates, l.candidates[k], k);
}

/// What a purchase that goes through changes, as the lookups show it: the buyer's
/// tokens bought become `tokens`, with the spending as it was; the unsold balance
/// falls by `tokens`; every other participant's record and every tally stay.
pub proof fn purchase_effect(l: Ledger, account: Seq<u8>, tokens: nat, other: Seq<u8>)
    requires
        l.inv(),
        tokens <= l.balance_tokens,
    ensures
        l.purchase(account, tokens).participant(account) == (Participant {
            bought: tokens,
            ..l.participant(account)
        }),
        other != account ==> l.purchase(account, tokens).participant(other) == l.participant(
            other,
        ),
        l.purchase(account, tokens).balance_tokens == l.balance_tokens - tokens,
        l.purchase(account, tokens).tally == l.tally,
{
    let record = Participant { bought: tokens, ..l.participant(account) };
    participant_has_account(l, account);
    lookups_after_recording(l, l.purchase(account, tokens), account, record, other);
}

/// What a vote that goes through changes, as the lookups show it: the voter's entry
/// for the candidate and the candidate's tally grow by `amount`, and so does the
/// voter's total spent; every other participant's record and the tally of every other
/// name stay.
pub proof fn vote_effect(
    l: Ledger,
    account: Seq<u8>,
    name: Seq<char>,
    amount: nat,
    other: Seq<u8>,
    other_name: Seq<char>,
)
    requires
        l.inv(),
        l.vote_refusal(account, name, amount) is None,
    ensures
        l.cast_vote(account, name, amount).participant(account) == l.participant(
            account,
        ).with_vote(l.candidates.len(), l.index_of(name), amount),
        l.cast_vote(account, name, amount).participant(account).spent() == l.participant(
            account,
        ).spent() + amount,
        other != account ==> l.cast_vote(account, name, amount).participant(other)
            == l.participant(other),
        l.cast_vote(account, name, amount).tally_of(name) == l.tally_of(name) + amount,
        other_name != name ==> l.cast_vote(account, name, amount).tally_of(other_name)
            == l.tally_of(other_name),
{
    let record = l.participant(account).with_vote(l.candidates.len(), l.index_of(name), amount);
    vote_grows_record(l, account, name, amount);
    participant_has_account(l, account);
    lookups_after_recording(l, l.cast_vote(account, name, amount), account, record, other);
    if other_name != name && l.is_candidate(other_name) {
        first_position_of_member(l.candidates, other_name);
    }
}

/// Budget, one step on: whoever was within budget before a purchase or a vote, by
/// anyone, is within budget after it, unless the step is a purchase of their own that
/// allots fewer tokens than they have already spent. A vote that goes through leaves
/// its voter within budget in any case.
pub proof fn step_keeps_budget(l: Ledger, step: Step, who: Seq<u8>)
    requires
        l.inv(),
        l.participant(who).within_budget(),
        !l.undercuts_spending(who, step),
    ensures
        l.after(step).participant(who).within_budget(),
{
    if !l.refuses(step) {
        match step {
            Step::Purchase { account, payment } => {
                purchase_effect(l, account, l.tokens_for(payment), who);
            },
            Step::Vote { account, candidate, amount } => {
                vote_effect(l, account, candidate, amount, who, candidate);
                vote_grows_record(l, account, candidate, amount);
            },
        }
    }
}

proof fn budget_at_the_end(l: Ledger, steps: Seq<Step>, who: Seq<u8>)
    requires
        l.inv(),
        l.participant(who).within_budget(),
        forall|n: int|
            0 <= n < steps.len() ==> !l.after_all(#[trigger] steps.take(n)).undercuts_spending(
                who,
                steps[n],
            ),
    ensures
        l.after_all(steps).participant(who).within_budget(),
    decreases steps.len(),
{
    if steps.len() > 0 {
        let earlier = steps.drop_last();
        assert forall|n: int| 0 <= n < earlier.len() implies !l.after_all(
            #[trigger] earlier.take(n),
        ).undercuts_spending(who, earlier[n]) by {
            assert(earlier.take(n) =~= steps.take(n));
        }
        budget_at_the_end(l, earlier, who);
        history_keeps_invariant(l, earlier);
        assert(steps.take(steps.len() - 1) =~= earlier);
        step_keeps_budget(l.after_all(earlier), steps.last(), who);
    }
}

/// Budget conservation: take anyone who has spent no more than was bought (someone
/// new to the ledger has), and let any purchases and votes follow, by anyone, in any
/// order; only let none of that participant's own purchases allot fewer tokens than
/// the participant had spent by then. Then at every point of the sequence the
/// participant has spent no more than was bought.
pub proof fn history_keeps_budget(l: Ledger, steps: Seq<Step>, who: Seq<u8>)
    requires
        l.inv(),
        l.participant(who).within_budget(),
        forall|n: int|
            0 <= n < steps.len() ==> !l.after_all(#[trigger] steps.take(n)).undercuts_spending(
                who,
                steps[n],
            ),
    ensures
        forall|n: int|
            0 <= n <= steps.len() ==> l.after_all(#[trigger] steps.take(n)).participant(
                who,
            ).within_budget(),
{
    assert forall|n: int| 0 <= n <= steps.len() implies l.after_all(
        #[trigger] steps.take(n),
    ).participant(who).within_budget() by {
        let upto = steps.take(n);
        assert forall|m: int| 0 <= m < upto.len() implies !l.after_all(
            #[trigger] upto.take(m),
        ).undercuts_spending(who, upto[m]) by {
            assert(upto.take(m) =~= steps.take(m));
        }
        budget_at_the_end(l, upto, who);
    }
}

/// Tally and ledger agree: the tally of every registered candidate is the sum, over
/// all participants, of what each has spent on that candidate. It is therefore no
/// more than what was sold.
pub proof fn tally_matches_spending(l: Ledger, name: Seq<char>)
    requires
        l.inv(),
        l.is_candidate(name),
    ensures
        l.tally_of(name) == column_total(l.participants, l.index_of(name)),
        l.tally_of(name) <= l.tokens_sold(),
{
    first_position_of_member(l.candidates, name);
    tally_is_covered(l, l.index_of(name));
}

/// What was spent on one candidate was sold: the tally together with the unsold
/// balance stays within the supply.
pub proof fn tally_is_covered(l: Ledger, i: int)
    requires
        l.inv(),
        0 <= i < l.candidates.len(),
    ensures
        l.tally[i] + l.balance_tokens <= l.total_tokens,
{
    column_is_covered(l.participants, i);
}

/// What one participant has spent was sold: together with the unsold balance it stays
/// within the supply.
pub proof fn spending_is_covered(l: Ledger, k: int)
    requires
        l.inv(),
        0 <= k < l.participants.len(),
    ensures
        l.participants[k].spent() + l.balance_tokens <= l.total_tokens,
{
    assert(drawn_by_each(l.participants)[k] == l.participants[k].drawn());
    total_bounds_entry(drawn_by_each(l.participants), k);
}

/// Supply is conserved: what is unsold and what was sold make up the supply, neither
/// is negative, and the tokens behind the records are among those sold.
pub proof fn supply_is_conserved(l: Ledger)
    requires
        l.inv(),
    ensures
        l.balance_tokens + l.tokens_sold() == l.total_tokens,
        0 <= l.tokens_sold() <= l.total_tokens,
        drawn_total(l.participants) <= l.tokens_sold(),
{
}

/// A ledger that obeys the invariant is made up by its own registry, terms of sale
/// and records: the tallies hold nothing that the records do not.
pub proof fn rebuilt_from_own_parts(l: Ledger)
    requires
        l.inv(),
    ensures
        Ledger::rebuilt(
            l.candidates,
            l.total_tokens,
            l.balance_tokens,
            l.token_price,
            l.participants,
        ) == l,
{
    let again = Ledger::rebuilt(
        l.candidates,
        l.total_tokens,
        l.balance_tokens,
        l.token_price,
        l.participants,
    );
    assert(again.tally =~= l.tally);
    assert(again =~= l);
}

} // verus!
