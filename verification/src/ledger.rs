//! The mathematical model of the aggregation: what each address has
//! bought, sold and held after a sequence of transfers.

use vstd::prelude::*;
use crate::models::{TransferView, UserStatsView};

verus! {

/// The four running totals kept for an address.
pub enum Tally {
    AmountBought,
    ValueBought,
    AmountSold,
    ValueSold,
}

/// What one event adds to a total of `address`.
pub open spec fn contribution(e: TransferView, address: Seq<char>, tally: Tally) -> int {
    match tally {
        Tally::AmountBought => if e.to == address { e.amount } else { 0 },
        Tally::ValueBought => if e.to == address { e.amount * e.usd_price } else { 0 },
        Tally::AmountSold => if e.from == address { e.amount } else { 0 },
        Tally::ValueSold => if e.from == address { e.amount * e.usd_price } else { 0 },
    }
}

/// A total of `address` over all of `events`: the sum of the contributions.
pub open spec fn total(events: Seq<TransferView>, address: Seq<char>, tally: Tally) -> int
    decreases events.len(),
{
    if events.len() == 0 {
        0
    } else {
        total(events.drop_last(), address, tally) + contribution(events.last(), address, tally)
    }
}

/// A balance after `address` sends `e`, if it does: never below zero.
pub open spec fn debited(balance: int, e: TransferView, address: Seq<char>) -> int {
    if e.from == address {
        if balance - e.amount < 0 { 0 } else { balance - e.amount }
    } else {
        balance
    }
}

/// A balance after `address` receives `e`, if it does.
pub open spec fn credited(balance: int, e: TransferView, address: Seq<char>) -> int {
    if e.to == address { balance + e.amount } else { balance }
}

/// The running balance of `address` once `events` have been applied in
/// order. Within one event the debit comes before the credit.
pub open spec fn balance_after(events: Seq<TransferView>, address: Seq<char>) -> int
    decreases events.len(),
{
    if events.len() == 0 {
        0
    } else {
        credited(
            debited(balance_after(events.drop_last(), address), events.last(), address),
            events.last(),
            address,
        )
    }
}

/// The highest balance that `address` held right after a receipt, or zero.
pub open spec fn peak_after(events: Seq<TransferView>, address: Seq<char>) -> int
    decreases events.len(),
{
    if events.len() == 0 {
        0
    } else {
        let before = peak_after(events.drop_last(), address);
        let now = balance_after(events, address);
        if events.last().to == address && now > before { now } else { before }
    }
}

/// Whether `address` sends or receives in some event.
pub open spec fn participates(events: Seq<TransferView>, address: Seq<char>) -> bool {
    exists|i: int| 0 <= i < events.len() && is_party(#[trigger] events[i], address)
}

/// Whether `address` is the sender or the receiver of `e`.
pub open spec fn is_party(e: TransferView, address: Seq<char>) -> bool {
    e.from == address || e.to == address
}

/// `known`, with `address` appended unless it is there already.
pub open spec fn with_address(known: Seq<Seq<char>>, address: Seq<char>) -> Seq<Seq<char>> {
    if known.contains(address) { known } else { known.push(address) }
}

/// The distinct addresses of `events`, in the order in which they first
/// occur, a sender before the receiver of the same event.
pub open spec fn participants(events: Seq<TransferView>) -> Seq<Seq<char>>
    decreases events.len(),
{
    if events.len() == 0 {
        Seq::empty()
    } else {
        with_address(
            with_address(participants(events.drop_last()), events.last().from),
            events.last().to,
        )
    }
}

/// `value / amount` rounded toward zero where `amount` is positive, else zero.
pub open spec fn average_price(value: int, amount: int) -> int {
    if amount > 0 {
        if value >= 0 { value / amount } else { -((-value) / amount) }
    } else {
        0
    }
}

/// The record of `address` over `events`.
pub open spec fn stats_for(events: Seq<TransferView>, address: Seq<char>) -> UserStatsView {
    UserStatsView {
        address,
        total_volume: total(events, address, Tally::AmountBought) + total(
            events,
            address,
            Tally::AmountSold,
        ),
        avg_buy_price: average_price(
            total(events, address, Tally::ValueBought),
            total(events, address, Tally::AmountBought),
        ),
        avg_sell_price: average_price(
            total(events, address, Tally::ValueSold),
            total(events, address, Tally::AmountSold),
        ),
        max_balance: peak_after(events, address),
    }
}

/// The table of `events`: one record per participant, in order of first
/// occurrence.
pub open spec fn stats_of(events: Seq<TransferView>) -> Seq<UserStatsView> {
    Seq::new(participants(events).len(), |j: int| stats_for(events, participants(events)[j]))
}

/// Whether `table` holds exactly one record for each participant of
/// `events`, each with that participant's statistics, in any order.
pub open spec fn is_stats_table(events: Seq<TransferView>, table: Seq<UserStatsView>) -> bool {
    &&& forall|j: int|
        0 <= j < table.len() ==> participates(events, (#[trigger] table[j]).address)
            && table[j] == stats_for(events, table[j].address)
    &&& forall|j: int, k: int|
        0 <= j < k < table.len() ==> (#[trigger] table[j]).address != (#[trigger] table[k]).address
    &&& forall|a: Seq<char>|
        participates(events, a) ==> exists|j: int|
            0 <= j < table.len() && (#[trigger] table[j]).address == a
}

/// Whether the amount and the price of `e` are 32-bit signed integers.
pub open spec fn in_range(e: TransferView) -> bool {
    &&& i32::MIN <= e.amount <= i32::MAX
    &&& i32::MIN <= e.usd_price <= i32::MAX
}

/// Whether every event of `events` is `in_range`.
pub open spec fn all_in_range(events: Seq<TransferView>) -> bool {
    forall|i: int| 0 <= i < events.len() ==> in_range(#[trigger] events[i])
}

/// What one more event does to every quantity of `address`.
pub proof fn lemma_step(events: Seq<TransferView>, e: TransferView, address: Seq<char>)
    ensures
        forall|tally: Tally| #[trigger]
            total(events.push(e), address, tally) == total(events, address, tally) + contribution(
                e,
                address,
                tally,
            ),
        balance_after(events.push(e), address) == credited(
            debited(balance_after(events, address), e, address),
            e,
            address,
        ),
        peak_after(events.push(e), address) == if e.to == address && balance_after(
            events.push(e),
            address,
        ) > peak_after(events, address) {
            balance_after(events.push(e), address)
        } else {
            peak_after(events, address)
        },
        participants(events.push(e)) == with_address(
            with_address(participants(events), e.from),
            e.to,
        ),
{
    assert(events.push(e).drop_last() =~= events);
    assert(events.push(e).last() == e);
}

/// `with_address` adds `address` and nothing else, and keeps a sequence
/// free of duplicates.
pub proof fn lemma_with_address(known: Seq<Seq<char>>, address: Seq<char>)
    ensures
        forall|a: Seq<char>|
            with_address(known, address).contains(a) <==> known.contains(a) || a == address,
        known.no_duplicates() ==> with_address(known, address).no_duplicates(),
{
    let grown = known.push(address);
    assert forall|a: Seq<char>| grown.contains(a) <==> known.contains(a) || a == address by {
        if known.contains(a) {
            let i = choose|i: int| 0 <= i < known.len() && known[i] == a;
            assert(grown[i] == a);
        }
        if a == address {
            assert(grown[known.len() as int] == a);
        }
        if grown.contains(a) {
            let i = choose|i: int| 0 <= i < grown.len() && grown[i] == a;
            if i < known.len() {
                assert(known[i] == a);
            }
        }
    }
    if known.no_duplicates() && !known.contains(address) {
        assert forall|i: int, j: int| 0 <= i < grown.len() && 0 <= j < grown.len() && i != j implies grown[i] != grown[j] by {
            if i < known.len() && j < known.len() {
            } else if i < known.len() {
                assert(known.contains(known[i]));
            } else {
                assert(known.contains(known[j]));
            }
        }
    }
}

/// The table has one row for each address that takes part in some event,
/// and no address twice.
pub proof fn lemma_participants(events: Seq<TransferView>)
    ensures
        participants(events).no_duplicates(),
        forall|a: Seq<char>| participants(events).contains(a) <==> participates(events, a),
    decreases events.len(),
{
    if events.len() == 0 {
        assert forall|a: Seq<char>| participants(events).contains(a) <==> participates(
            events,
            a,
        ) by {}
    } else {
        let before = events.drop_last();
        let e = events.last();
        lemma_participants(before);
        let mid = with_address(participants(before), e.from);
        lemma_with_address(participants(before), e.from);
        lemma_with_address(mid, e.to);
        assert forall|a: Seq<char>| participants(events).contains(a) <==> participates(
            events,
            a,
        ) by {
            if participates(before, a) {
                let i = choose|i: int| 0 <= i < before.len() && is_party(#[trigger] before[i], a);
                assert(is_party(events[i], a));
            }
            if is_party(e, a) {
                assert(is_party(events[events.len() - 1], a));
            }
            if participates(events, a) {
                let i = choose|i: int| 0 <= i < events.len() && is_party(#[trigger] events[i], a);
                if i < before.len() {
                    assert(is_party(before[i], a));
                }
            }
        }
    }
}

/// An address that takes part in no event has bought, sold and held
/// nothing.
pub proof fn lemma_absent_is_zero(events: Seq<TransferView>, address: Seq<char>)
    requires
        !participates(events, address),
    ensures
        forall|tally: Tally| #[trigger] total(events, address, tally) == 0,
        balance_after(events, address) == 0,
        peak_after(events, address) == 0,
    decreases events.len(),
{
    if events.len() > 0 {
        let before = events.drop_last();
        assert(!is_party(events[events.len() - 1], address));
        assert(!participates(before, address)) by {
            if participates(before, address) {
                let i = choose|i: int|
                    0 <= i < before.len() && is_party(#[trigger] before[i], address);
                assert(is_party(events[i], address));
            }
        }
        lemma_absent_is_zero(before, address);
        assert forall|tally: Tally| #[trigger] total(events, address, tally) == 0 by {
            assert(total(before, address, tally) == 0);
        }
    }
}

/// How far the quantities of an address can be from zero after a given
/// number of events.
pub proof fn lemma_bounded(events: Seq<TransferView>, address: Seq<char>)
    requires
        all_in_range(events),
    ensures
        -2147483648 * events.len() <= total(events, address, Tally::AmountBought) <= 2147483648
            * events.len(),
        -2147483648 * events.len() <= total(events, address, Tally::AmountSold) <= 2147483648
            * events.len(),
        -4611686018427387904 * events.len() <= total(events, address, Tally::ValueBought)
            <= 4611686018427387904 * events.len(),
        -4611686018427387904 * events.len() <= total(events, address, Tally::ValueSold)
            <= 4611686018427387904 * events.len(),
        -4294967296 * events.len() <= balance_after(events, address) <= 4294967296 * events.len(),
        0 <= peak_after(events, address) <= 4294967296 * events.len(),
    decreases events.len(),
{
    if events.len() > 0 {
        let before = events.drop_last();
        let e = events.last();
        assert(in_range(events[events.len() - 1]));
        assert forall|i: int| 0 <= i < before.len() implies in_range(#[trigger] before[i]) by {
            assert(in_range(events[i]));
        }
        lemma_bounded(before, address);
        assert(-4611686018427387904 <= e.amount * e.usd_price <= 4611686018427387904)
            by (nonlinear_arith)
            requires
                -2147483648 <= e.amount <= 2147483647,
                -2147483648 <= e.usd_price <= 2147483647,
        ;
    }
}

/// The table in order of first occurrence is a table of the run.
pub proof fn lemma_stats_of_is_table(events: Seq<TransferView>)
    ensures
        is_stats_table(events, stats_of(events)),
{
    let table = stats_of(events);
    let names = participants(events);
    lemma_participants(events);
    assert forall|j: int| 0 <= j < table.len() implies participates(
        events,
        (#[trigger] table[j]).address,
    ) && table[j] == stats_for(events, table[j].address) by {
        assert(names.contains(names[j]));
    }
    assert forall|a: Seq<char>| participates(events, a) implies exists|j: int|
        0 <= j < table.len() && (#[trigger] table[j]).address == a by {
        let j = choose|j: int| 0 <= j < names.len() && names[j] == a;
        assert(table[j].address == a);
    }
}

} // verus!
