//! The accumulators of a run, one per address, found by address through a
//! hash index and kept in the order in which the addresses first occur.

use vstd::prelude::*;
use vstd::hash_map::StringHashMap;
use crate::aggregate::AddressAggregate;
use crate::ledger::{
    all_in_range, contribution, lemma_absent_is_zero, lemma_bounded, lemma_participants,
    lemma_step, participants, stats_for, stats_of, total, with_address, Tally,
};
use crate::models::{table_of, Transfer, TransferView, UserStats};

verus! {

/// The accumulators of all addresses seen so far.
pub struct AggregateTable {
    index: StringHashMap<usize>,
    addresses: Vec<String>,
    aggregates: Vec<AddressAggregate>,
}

impl AggregateTable {
    /// The addresses seen so far, in order of first occurrence.
    pub closed spec fn names(&self) -> Seq<Seq<char>> {
        Seq::new(self.addresses@.len(), |j: int| self.addresses@[j]@)
    }

    /// The accumulators, in the order of `names`.
    pub closed spec fn rows(&self) -> Seq<AddressAggregate> {
        self.aggregates@
    }

    /// The index and the two vectors agree.
    pub closed spec fn wf(&self) -> bool {
        &&& self.addresses@.len() == self.aggregates@.len()
        &&& forall|a: Seq<char>| #[trigger]
            self.index@.contains_key(a) ==> self.index@[a] < self.addresses@.len()
                && self.addresses@[self.index@[a] as int]@ == a
        &&& forall|j: int|
            0 <= j < self.addresses@.len() ==> self.index@.contains_key(
                (#[trigger] self.addresses@[j])@,
            ) && self.index@[self.addresses@[j]@] == j
    }

    /// Whether every accumulator has room for one more update.
    pub open spec fn has_room(&self) -> bool {
        forall|j: int| 0 <= j < self.rows().len() ==> (#[trigger] self.rows()[j]).has_room()
    }

    /// Whether this is the table after `events`.
    pub open spec fn tracks(&self, events: Seq<TransferView>) -> bool {
        &&& self.names() == participants(events)
        &&& self.rows().len() == self.names().len()
        &&& forall|j: int|
            0 <= j < self.rows().len() ==> (#[trigger] self.rows()[j]).tracks(
                events,
                self.names()[j],
            )
    }

    /// A well-formed table has one accumulator per address and no address
    /// twice.
    pub proof fn lemma_wf(&self)
        requires
            self.wf(),
        ensures
            self.rows().len() == self.names().len(),
            self.names().no_duplicates(),
    {
        assert forall|i: int, j: int|
            0 <= i < self.names().len() && 0 <= j < self.names().len() && i != j implies self.names()[i]
            != self.names()[j] by {
            assert(self.index@[self.addresses@[i]@] == i);
            assert(self.index@[self.addresses@[j]@] == j);
        }
    }

    /// A table that tracks a run that a slice can hold has room for one
    /// more transfer.
    pub proof fn lemma_room(&self, events: Seq<TransferView>)
        requires
            self.tracks(events),
            all_in_range(events),
            events.len() <= usize::MAX,
        ensures
            self.has_room(),
    {
        assert forall|j: int| 0 <= j < self.rows().len() implies (#[trigger] self.rows()[j]).has_room() by {
            lemma_bounded(events, self.names()[j]);
        }
    }

    /// The table of a run without events.
    pub fn new() -> (table: Self)
        ensures
            table.wf(),
            table.names() == Seq::<Seq<char>>::empty(),
            table.rows() == Seq::<AddressAggregate>::empty(),
            table.tracks(Seq::empty()),
            table.has_room(),
    {
        let table = AggregateTable {
            index: StringHashMap::new(),
            addresses: Vec::new(),
            aggregates: Vec::new(),
        };
        assert(table.names() =~= Seq::<Seq<char>>::empty());
        table
    }

    /// The number of addresses seen so far.
    pub fn len(&self) -> (n: usize)
        requires
            self.wf(),
        ensures
            n == self.names().len(),
            n == self.rows().len(),
    {
        self.addresses.len()
    }

    /// The position of `address`, which gets a fresh accumulator at the end
    /// of the table if it was not seen before.
    pub fn slot_of(&mut self, address: &String) -> (slot: usize)
        requires
            old(self).wf(),
        ensures
            final(self).wf(),
            final(self).names() == with_address(old(self).names(), address@),
            slot < final(self).names().len(),
            final(self).names()[slot as int] == address@,
            final(self).rows().len() == final(self).names().len(),
            forall|j: int|
                0 <= j < old(self).rows().len() ==> final(self).rows()[j] == old(self).rows()[j],
            forall|j: int|
                old(self).rows().len() <= j < final(self).rows().len() ==> {
                    &&& (#[trigger] final(self).rows()[j]).running_balance == 0
                    &&& final(self).rows()[j].peak_balance == 0
                    &&& final(self).rows()[j].total_amount_bought == 0
                    &&& final(self).rows()[j].total_value_bought == 0
                    &&& final(self).rows()[j].total_amount_sold == 0
                    &&& final(self).rows()[j].total_value_sold == 0
                },
    {
        let ghost before = self.names();
        let found: Option<usize> = match self.index.get(address.as_str()) {
            Some(slot) => Some(*slot),
            None => None,
        };
        match found {
            Some(slot) => {
                proof {
                    assert(before[slot as int] == address@);
                }
                slot
            },
            None => {
                let slot: usize = self.addresses.len();
                proof {
                    if before.contains(address@) {
                        let j = choose|j: int| 0 <= j < before.len() && before[j] == address@;
                        assert(self.index@.contains_key(self.addresses@[j]@));
                    }
                }
                self.index.insert(address.clone(), slot);
                self.addresses.push(address.clone());
                self.aggregates.push(AddressAggregate::new());
                proof {
                    assert(self.names() =~= before.push(address@));
                    assert forall|j: int| 0 <= j < self.addresses@.len() implies self.index@.contains_key(
                        (#[trigger] self.addresses@[j])@,
                    ) && self.index@[self.addresses@[j]@] == j by {
                        if j < slot {
                            assert(before[j] == self.addresses@[j]@);
                            assert(before.contains(before[j]));
                        }
                    }
                }
                slot
            },
        }
    }

    /// Folds one transfer into the table: the sender is debited, then the
    /// receiver is credited.
    pub fn apply(&mut self, transfer: &Transfer)
        requires
            old(self).wf(),
            old(self).has_room(),
        ensures
            final(self).wf(),
            final(self).names() == with_address(
                with_address(old(self).names(), transfer.from@),
                transfer.to@,
            ),
            forall|events: Seq<TransferView>| #[trigger]
                old(self).tracks(events) ==> final(self).tracks(events.push(transfer@)),
    {
        let ghost e = transfer@;
        let ghost rows0 = self.rows();
        let ghost names0 = self.names();
        proof {
            assert(-4611686018427387904 <= e.amount * e.usd_price <= 4611686018427387904)
                by (nonlinear_arith)
                requires
                    -2147483648 <= e.amount <= 2147483647,
                    -2147483648 <= e.usd_price <= 2147483647,
            ;
        }
        let s: usize = self.slot_of(&transfer.from);
        let mut seller: AddressAggregate = self.aggregates[s];
        seller.debit(transfer.amount, transfer.usd_price);
        self.aggregates.set(s, seller);
        let r: usize = self.slot_of(&transfer.to);
        let mut buyer: AddressAggregate = self.aggregates[r];
        buyer.credit(transfer.amount, transfer.usd_price);
        self.aggregates.set(r, buyer);
        proof {
            self.lemma_wf();
            let names = self.names();
            let rows = self.rows();
            assert forall|events: Seq<TransferView>| #[trigger]
                old(self).tracks(events) implies self.tracks(events.push(e)) by {
                let after = events.push(e);
                lemma_step(events, e, e.from);
                lemma_participants(events);
                assert forall|j: int| 0 <= j < rows.len() implies (#[trigger] rows[j]).tracks(
                    after,
                    names[j],
                ) by {
                    let a = names[j];
                    lemma_step(events, e, a);
                    assert(total(after, a, Tally::AmountBought) == total(
                        events,
                        a,
                        Tally::AmountBought,
                    ) + contribution(e, a, Tally::AmountBought));
                    assert(total(after, a, Tally::ValueBought) == total(
                        events,
                        a,
                        Tally::ValueBought,
                    ) + contribution(e, a, Tally::ValueBought));
                    assert(total(after, a, Tally::AmountSold) == total(
                        events,
                        a,
                        Tally::AmountSold,
                    ) + contribution(e, a, Tally::AmountSold));
                    assert(total(after, a, Tally::ValueSold) == total(events, a, Tally::ValueSold)
                        + contribution(e, a, Tally::ValueSold));
                    assert((e.from == a) == (j == s));
                    assert((e.to == a) == (j == r));
                    if j < rows0.len() {
                        assert(names0[j] == a);
                        assert(rows0[j].tracks(events, a));
                    } else {
                        assert(!names0.contains(a)) by {
                            if names0.contains(a) {
                                let k = choose|k: int| 0 <= k < names0.len() && names0[k] == a;
                                assert(names[k] == a);
                            }
                        }
                        lemma_absent_is_zero(events, a);
                        assert(total(events, a, Tally::AmountBought) == 0);
                        assert(total(events, a, Tally::ValueBought) == 0);
                        assert(total(events, a, Tally::AmountSold) == 0);
                        assert(total(events, a, Tally::ValueSold) == 0);
                    }
                }
            }
        }
    }

    /// The records of all addresses, in the order of `names`.
    pub fn into_stats(self) -> (stats: Vec<UserStats>)
        requires
            self.wf(),
            self.has_room(),
        ensures
            stats@.len() == self.names().len(),
            forall|j: int|
                0 <= j < stats@.len() ==> (#[trigger] stats@[j]).address@ == self.names()[j],
            forall|events: Seq<TransferView>| #[trigger]
                self.tracks(events) ==> table_of(stats@) == stats_of(events),
    {
        let mut stats: Vec<UserStats> = Vec::new();
        let n: usize = self.addresses.len();
        let mut j: usize = 0;
        while j < n
            invariant
                self.wf(),
                self.has_room(),
                n == self.addresses@.len(),
                j <= n,
                stats@.len() == j,
                forall|k: int| 0 <= k < j ==> (#[trigger] stats@[k]).address@ == self.names()[k],
                forall|events: Seq<TransferView>, k: int|
                    #![trigger self.tracks(events), stats@[k]]
                    self.tracks(events) && 0 <= k < j ==> stats@[k]@ == stats_for(
                        events,
                        self.names()[k],
                    ),
            decreases n - j,
        {
            let row: AddressAggregate = self.aggregates[j];
            assert(self.rows()[j as int].has_room());
            let record: UserStats = row.into_stats(self.addresses[j].clone());
            stats.push(record);
            j = j + 1;
        }
        proof {
            assert forall|events: Seq<TransferView>| #[trigger]
                self.tracks(events) implies table_of(stats@) == stats_of(events) by {
                assert forall|k: int| 0 <= k < stats@.len() implies table_of(stats@)[k]
                    == stats_of(events)[k] by {
                    assert(stats@[k]@ == stats_for(events, self.names()[k]));
                }
                assert(table_of(stats@) =~= stats_of(events));
            }
        }
        stats
    }
}

} // verus!
