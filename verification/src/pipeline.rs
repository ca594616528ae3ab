//! The aggregation engine: a single fold of a run of transfers into one
//! record per address.

use vstd::prelude::*;
use crate::laws::lemma_peak_never_negative;
use crate::ledger::{
    all_in_range, in_range, is_stats_table, lemma_stats_of_is_table, participants, stats_of,
};
use crate::models::{events_of, table_of, Transfer, UserStats};
use crate::table::AggregateTable;

verus! {

/// Something that turns a run of transfers into per-address statistics.
pub trait StatsCalculator {
    /// One record for each address that sends or receives in `transfers`,
    /// in an order that the implementation chooses.
    fn calculate_user_stats(&self, transfers: &[Transfer]) -> (stats: Vec<UserStats>)
        ensures
            is_stats_table(events_of(transfers@), table_of(stats@)),
    ;
}

/// The calculator that folds the run in memory, in the order given.
#[derive(Default)]
pub struct MockCalculator;

impl StatsCalculator for MockCalculator {
    /// The records come in the order in which the addresses first occur.
    fn calculate_user_stats(&self, transfers: &[Transfer]) -> (stats: Vec<UserStats>)
        ensures
            table_of(stats@) == stats_of(events_of(transfers@)),
    {
        compute_user_stats(transfers)
    }
}

/// Folds `transfers`, in the order given, into one record per address,
/// in the order in which the addresses first occur. No input is refused.
pub fn compute_user_stats(transfers: &[Transfer]) -> (stats: Vec<UserStats>)
    ensures
        table_of(stats@) == stats_of(events_of(transfers@)),
        is_stats_table(events_of(transfers@), table_of(stats@)),
        transfers@.len() == 0 ==> stats@.len() == 0,
        forall|j: int| 0 <= j < stats@.len() ==> (#[trigger] stats@[j]).max_balance >= 0,
{
    let ghost events = events_of(transfers@);
    assert(all_in_range(events)) by {
        assert forall|i: int| 0 <= i < events.len() implies in_range(#[trigger] events[i]) by {}
    }
    let mut table = AggregateTable::new();
    let mut i: usize = 0;
    assert(events.take(0) =~= Seq::empty());
    while i < transfers.len()
        invariant
            i <= transfers.len(),
            events == events_of(transfers@),
            all_in_range(events),
            table.wf(),
            table.tracks(events.take(i as int)),
        decreases transfers.len() - i,
    {
        proof {
            table.lemma_room(events.take(i as int));
            assert(events.take(i as int).push(transfers[i as int]@) =~= events.take(i + 1));
        }
        table.apply(&transfers[i]);
        i = i + 1;
    }
    proof {
        assert(events.take(i as int) =~= events);
        table.lemma_room(events);
        lemma_stats_of_is_table(events);
    }
    let stats = table.into_stats();
    proof {
        assert(table_of(stats@).len() == stats@.len());
        assert forall|j: int| 0 <= j < stats@.len() implies (#[trigger] stats@[j]).max_balance
            >= 0 by {
            lemma_peak_never_negative(events, participants(events)[j]);
            assert(table_of(stats@)[j] == stats_of(events)[j]);
        }
    }
    stats
}

} // verus!
