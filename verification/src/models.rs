//! The records that enter and leave the aggregation, with their
//! mathematical views.

use vstd::prelude::*;

verus! {

/// One movement of an amount of an asset from `from` to `to`.
///
/// `amount` and `usd_price` are fixed-point integers in the smallest unit
/// that the caller accounts in; neither sign is constrained.
#[derive(Debug, Clone)]
pub struct Transfer {
    /// Seconds since the epoch. The aggregation does not read it.
    pub ts: u64,
    pub from: String,
    pub to: String,
    pub amount: i32,
    pub usd_price: i32,
}

/// What a `Transfer` is, as plain mathematics.
pub ghost struct TransferView {
    pub ts: nat,
    pub from: Seq<char>,
    pub to: Seq<char>,
    pub amount: int,
    pub usd_price: int,
}

impl View for Transfer {
    type V = TransferView;

    open spec fn view(&self) -> TransferView {
        TransferView {
            ts: self.ts as nat,
            from: self.from@,
            to: self.to@,
            amount: self.amount as int,
            usd_price: self.usd_price as int,
        }
    }
}

/// The summary of one address over a whole run.
#[derive(Debug, Clone)]
pub struct UserStats {
    pub address: String,
    pub total_volume: i128,
    pub avg_buy_price: i128,
    pub avg_sell_price: i128,
    pub max_balance: i128,
}

/// What a `UserStats` is, as plain mathematics.
pub ghost struct UserStatsView {
    pub address: Seq<char>,
    pub total_volume: int,
    pub avg_buy_price: int,
    pub avg_sell_price: int,
    pub max_balance: int,
}

impl View for UserStats {
    type V = UserStatsView;

    open spec fn view(&self) -> UserStatsView {
        UserStatsView {
            address: self.address@,
            total_volume: self.total_volume as int,
            avg_buy_price: self.avg_buy_price as int,
            avg_sell_price: self.avg_sell_price as int,
            max_balance: self.max_balance as int,
        }
    }
}

/// The views of a run of transfers, in the order given.
pub open spec fn events_of(transfers: Seq<Transfer>) -> Seq<TransferView> {
    Seq::new(transfers.len(), |i: int| transfers[i]@)
}

/// The views of a table of records, in the order given.
pub open spec fn table_of(stats: Seq<UserStats>) -> Seq<UserStatsView> {
    Seq::new(stats.len(), |i: int| stats[i]@)
}

} // verus!
