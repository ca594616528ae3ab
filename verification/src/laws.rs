//! What holds of the statistics whatever the run: which of them depend on
//! the order of the events, and which can never be negative.

use vstd::prelude::*;
use crate::ledger::{
    balance_after, contribution, is_party, participates, peak_after, stats_for, total, Tally,
};
use crate::models::TransferView;

verus! {

/// Taking one event out of a run lowers a total by what that event
/// contributed.
pub proof fn lemma_total_remove(
    events: Seq<TransferView>,
    i: int,
    address: Seq<char>,
    tally: Tally,
)
    requires
        0 <= i < events.len(),
    ensures
        total(events, address, tally) == total(events.remove(i), address, tally) + contribution(
            events[i],
            address,
            tally,
        ),
    decreases events.len(),
{
    if i == events.len() - 1 {
        assert(events.remove(i) =~= events.drop_last());
    } else {
        lemma_total_remove(events.drop_last(), i, address, tally);
        assert(events.remove(i).drop_last() =~= events.drop_last().remove(i));
        assert(events.remove(i).last() == events.last());
    }
}

/// A total depends on which events a run holds and how often, not on
/// their order.
pub proof fn lemma_total_order_independent(
    first: Seq<TransferView>,
    second: Seq<TransferView>,
    address: Seq<char>,
    tally: Tally,
)
    requires
        first.to_multiset() == second.to_multiset(),
    ensures
        total(first, address, tally) == total(second, address, tally),
    decreases first.len(),
{
    first.to_multiset_ensures();
    second.to_multiset_ensures();
    if first.len() > 0 {
        let e = first.last();
        assert(first[first.len() - 1] == e);
        assert(first.contains(e));
        assert(first.to_multiset().count(e) > 0);
        assert(second.to_multiset().count(e) > 0);
        assert(second.contains(e));
        let i = choose|i: int| 0 <= i < second.len() && second[i] == e;
        assert(first.drop_last() =~= first.remove(first.len() - 1));
        assert(first.drop_last().to_multiset() == second.remove(i).to_multiset());
        lemma_total_order_independent(first.drop_last(), second.remove(i), address, tally);
        lemma_total_remove(second, i, address, tally);
    }
}

/// Two runs that hold the same events, each as often, in whatever order,
/// have the same participants, and give every address the same total
/// volume, the same average buy price and the same average sell price.
/// Nothing of the kind holds of the peak balance.
pub proof fn lemma_order_independent(
    first: Seq<TransferView>,
    second: Seq<TransferView>,
    address: Seq<char>,
)
    requires
        first.to_multiset() == second.to_multiset(),
    ensures
        participates(first, address) == participates(second, address),
        stats_for(first, address).total_volume == stats_for(second, address).total_volume,
        stats_for(first, address).avg_buy_price == stats_for(second, address).avg_buy_price,
        stats_for(first, address).avg_sell_price == stats_for(second, address).avg_sell_price,
{
    lemma_total_order_independent(first, second, address, Tally::AmountBought);
    lemma_total_order_independent(first, second, address, Tally::ValueBought);
    lemma_total_order_independent(first, second, address, Tally::AmountSold);
    lemma_total_order_independent(first, second, address, Tally::ValueSold);
    if participates(first, address) {
        lemma_same_participants(first, second, address);
    }
    if participates(second, address) {
        lemma_same_participants(second, first, address);
    }
}

/// An address that takes part in a run takes part in every run that holds
/// the same events.
pub proof fn lemma_same_participants(
    first: Seq<TransferView>,
    second: Seq<TransferView>,
    address: Seq<char>,
)
    requires
        first.to_multiset() == second.to_multiset(),
        participates(first, address),
    ensures
        participates(second, address),
{
    first.to_multiset_ensures();
    second.to_multiset_ensures();
    let i = choose|i: int| 0 <= i < first.len() && is_party(#[trigger] first[i], address);
    assert(first.contains(first[i]));
    assert(first.to_multiset().count(first[i]) > 0);
    assert(second.to_multiset().count(first[i]) > 0);
    assert(second.contains(first[i]));
    let j = choose|j: int| 0 <= j < second.len() && second[j] == first[i];
    assert(is_party(second[j], address));
}

/// The peak balance of an address is never negative, whatever the amounts
/// and however much more the address has sent than received.
pub proof fn lemma_peak_never_negative(events: Seq<TransferView>, address: Seq<char>)
    ensures
        peak_after(events, address) >= 0,
        stats_for(events, address).max_balance >= 0,
    decreases events.len(),
{
    if events.len() > 0 {
        lemma_peak_never_negative(events.drop_last(), address);
    }
}

/// Right after an address has sent, and not received in the same event,
/// its running balance is not negative.
pub proof fn lemma_debit_clamps(events: Seq<TransferView>, address: Seq<char>)
    requires
        events.len() > 0,
        events.last().from == address,
        events.last().to != address,
    ensures
        balance_after(events, address) >= 0,
{
}

/// Where an address receives no negative amount, its running balance is
/// not negative after any prefix of the run, however much it has sent.
pub proof fn lemma_balance_never_negative(events: Seq<TransferView>, address: Seq<char>, k: int)
    requires
        forall|i: int|
            0 <= i < events.len() && (#[trigger] events[i]).to == address ==> events[i].amount
                >= 0,
        0 <= k <= events.len(),
    ensures
        balance_after(events.take(k), address) >= 0,
    decreases k,
{
    if k > 0 {
        lemma_balance_never_negative(events, address, k - 1);
        assert(events.take(k).drop_last() =~= events.take(k - 1));
        assert(events.take(k).last() == events[k - 1]);
    }
}

} // verus!
