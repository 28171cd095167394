//! The schedule of the benchmark's rounds.
use vstd::prelude::*;
use rand::seq::SliceRandom;

verus! {

/// Whether to pause after round `round` (counted from 0) of `tx_count`:
/// only after a round whose transactions went out, since a round whose
/// nonce could not be fetched is skipped at once, and never after the last
/// round.
pub fn pause_after_round(round: usize, tx_count: usize, sent: bool) -> (pause: bool)
    ensures
        pause == (sent && round + 1 < tx_count),
{
    sent && round < tx_count && round + 1 < tx_count
}

/// Calls `SliceRandom::shuffle` of the `rand` crate with the thread's
/// random generator. The contract claims what holds of every shuffle: the
/// same items, in some order.
#[verifier::external_body]
fn shuffle_positions(items: &mut Vec<usize>)
    ensures
        final(items)@.len() == old(items)@.len(),
        final(items)@.to_multiset() == old(items)@.to_multiset(),
{
    items.shuffle(&mut rand::thread_rng());
}

/// The order in which the `count` senders are served in a round: each
/// position exactly once, in random order.
pub fn round_order(count: usize) -> (order: Vec<usize>)
    ensures
        order@.len() == count,
        order@.to_multiset() == Seq::new(count as nat, |i: int| i as usize).to_multiset(),
{
    let mut order: Vec<usize> = Vec::new();
    for i in 0..count
        invariant
            order@ == Seq::new(i as nat, |j: int| j as usize),
    {
        order.push(i);
        assert(order@ =~= Seq::new((i + 1) as nat, |j: int| j as usize));
    }
    shuffle_positions(&mut order);
    order
}

} // verus!
