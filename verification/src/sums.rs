//! Sums of sequences of natural numbers, the facts about them that the ledger's proofs
//! rest on, and the loops that add machine amounts up.

use vstd::prelude::*;

verus! {

/// The sum of all entries of `s`.
pub open spec fn total(s: Seq<nat>) -> nat
    decreases s.len(),
{
    if s.len() == 0 {
        0
    } else {
        total(s.drop_last()) + s.last()
    }
}

/// The sequence of `n` zeros.
pub open spec fn zeros(n: nat) -> Seq<nat> {
    Seq::new(n, |i: int| 0nat)
}

/// Machine amounts read as natural numbers.
pub open spec fn amounts(v: Seq<u128>) -> Seq<nat> {
    Seq::new(v.len(), |i: int| v[i] as nat)
}

/// A sequence of zeros sums to zero.
pub proof fn total_of_zeros(n: nat)
    ensures
        total(zeros(n)) == 0,
    decreases n,
{
    if n > 0 {
        assert(zeros(n).drop_last() =~= zeros((n - 1) as nat));
        total_of_zeros((n - 1) as nat);
    }
}

/// Appending an entry adds it to the sum.
pub proof fn total_push(s: Seq<nat>, x: nat)
    ensures
        total(s.push(x)) == total(s) + x,
{
    assert(s.push(x).drop_last() =~= s);
}

/// The sum of the first `k + 1` entries is the sum of the first `k` plus entry `k`.
pub proof fn total_take_step(s: Seq<nat>, k: int)
    requires
        0 <= k < s.len(),
    ensures
        total(s.take(k + 1)) == total(s.take(k)) + s[k],
{
    assert(s.take(k + 1).drop_last() =~= s.take(k));
}

/// Replacing one entry changes the sum by the difference between the new and the old entry.
pub proof fn total_update(s: Seq<nat>, i: int, v: nat)
    requires
        0 <= i < s.len(),
    ensures
        total(s.update(i, v)) == total(s) - s[i] + v,
    decreases s.len(),
{
    if i == s.len() - 1 {
        assert(s.update(i, v).drop_last() =~= s.drop_last());
    } else {
        assert(s.update(i, v).drop_last() =~= s.drop_last().update(i, v));
        total_update(s.drop_last(), i, v);
    }
}

/// No entry exceeds the sum.
pub proof fn total_bounds_entry(s: Seq<nat>, i: int)
    requires
        0 <= i < s.len(),
    ensures
        s[i] <= total(s),
    decreases s.len(),
{
    if i < s.len() - 1 {
        total_bounds_entry(s.drop_last(), i);
    }
}

/// A prefix sums to no more than the whole.
pub proof fn total_take_bounded(s: Seq<nat>, k: int)
    requires
        0 <= k <= s.len(),
    ensures
        total(s.take(k)) <= total(s),
    decreases s.len() - k,
{
    if k < s.len() {
        total_take_step(s, k);
        total_take_bounded(s, k + 1);
    } else {
        assert(s.take(k) =~= s);
    }
}

/// If each entry of `a` is at most the entry of `b` in the same place, the sums compare
/// the same way.
pub proof fn total_monotone(a: Seq<nat>, b: Seq<nat>)
    requires
        a.len() == b.len(),
        forall|k: int| 0 <= k < a.len() ==> a[k] <= b[k],
    ensures
        total(a) <= total(b),
    decreases a.len(),
{
    if a.len() > 0 {
        total_monotone(a.drop_last(), b.drop_last());
    }
}

/// A row of `width` zeros.
pub(crate) fn zero_row(width: usize) -> (row: Vec<u128>)
    ensures
        amounts(row@) == zeros(width as nat),
{
    let mut row: Vec<u128> = Vec::new();
    while row.len() < width
        invariant
            row.len() <= width,
            forall|j: int| 0 <= j < row.len() ==> row[j] == 0,
        decreases width - row.len(),
    {
        row.push(0);
    }
    proof {
        assert(amounts(row@) =~= zeros(width as nat));
    }
    row
}

/// The sum of `used`, which the caller knows to fit.
pub(crate) fn sum_of(used: &Vec<u128>) -> (sum: u128)
    requires
        total(amounts(used@)) <= u128::MAX,
    ensures
        sum == total(amounts(used@)),
{
    let mut sum: u128 = 0;
    let mut i: usize = 0;
    while i < used.len()
        invariant
            0 <= i <= used.len(),
            sum == total(amounts(used@).take(i as int)),
            total(amounts(used@)) <= u128::MAX,
        decreases used.len() - i,
    {
        proof {
            total_take_step(amounts(used@), i as int);
            total_take_bounded(amounts(used@), i + 1);
        }
        sum = sum + used[i];
        i += 1;
    }
    proof {
        assert(amounts(used@).take(used.len() as int) =~= amounts(used@));
    }
    sum
}

/// The sum of `used`, or `None` where it is too large for a `u128`.
pub(crate) fn checked_sum(used: &Vec<u128>) -> (sum: Option<u128>)
    ensures
        match sum {
            Some(sum) => sum == total(amounts(used@)),
            None => total(amounts(used@)) > u128::MAX,
        },
{
    let ghost entries = amounts(used@);
    let mut sum: u128 = 0;
    let mut i: usize = 0;
    while i < used.len()
        invariant
            0 <= i <= used.len(),
            entries == amounts(used@),
            sum == total(entries.take(i as int)),
        decreases used.len() - i,
    {
        proof {
            total_take_step(entries, i as int);
            total_take_bounded(entries, i + 1);
        }
        if used[i] > u128::MAX - sum {
            return None;
        }
        sum = sum + used[i];
        i += 1;
    }
    proof {
        assert(entries.take(used.len() as int) =~= entries);
    }
    Some(sum)
}

} // verus!
