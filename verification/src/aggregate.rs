//! The accumulator kept for one address while a run is folded.

use vstd::prelude::*;
use crate::ledger::{average_price, balance_after, peak_after, stats_for, total, Tally};
use crate::models::{TransferView, UserStats};

verus! {

/// The largest magnitude of a balance or of a total of amounts that still
/// leaves room for further updates: two to the power 100.
pub const AMOUNT_ROOM: i128 = 1267650600228229401496703205376;

/// The largest magnitude of a total of values that still leaves room for
/// one more update: two to the power 126.
pub const VALUE_ROOM: i128 = 85070591730234615865843651857942052864;

/// The running totals of one address.
#[derive(Debug, Clone, Copy)]
pub struct AddressAggregate {
    pub running_balance: i128,
    pub peak_balance: i128,
    pub total_amount_bought: i128,
    pub total_value_bought: i128,
    pub total_amount_sold: i128,
    pub total_value_sold: i128,
}

/// `value / amount` rounded toward zero where `amount` is positive, else zero.
pub fn quotient_or_zero(value: i128, amount: i128) -> (avg: i128)
    ensures
        avg == average_price(value as int, amount as int),
{
    if amount > 0 {
        value / amount
    } else {
        0
    }
}

impl AddressAggregate {
    /// Whether a debit of `amount` at `usd_price` keeps every field in `i128`.
    pub open spec fn can_debit(&self, amount: i32, usd_price: i32) -> bool {
        &&& i128::MIN <= self.running_balance - amount <= i128::MAX
        &&& i128::MIN <= self.total_amount_sold + amount <= i128::MAX
        &&& i128::MIN <= self.total_value_sold + amount * usd_price <= i128::MAX
    }

    /// Whether a credit of `amount` at `usd_price` keeps every field in `i128`.
    pub open spec fn can_credit(&self, amount: i32, usd_price: i32) -> bool {
        &&& i128::MIN <= self.running_balance + amount <= i128::MAX
        &&& i128::MIN <= self.total_amount_bought + amount <= i128::MAX
        &&& i128::MIN <= self.total_value_bought + amount * usd_price <= i128::MAX
    }

    /// Whether the total volume fits in `i128`.
    pub open spec fn can_summarize(&self) -> bool {
        i128::MIN <= self.total_amount_bought + self.total_amount_sold <= i128::MAX
    }

    /// A bound on every field that leaves room for a debit, a credit and a
    /// summary, whatever the amounts and prices.
    pub open spec fn has_room(&self) -> bool {
        &&& -AMOUNT_ROOM <= self.running_balance <= AMOUNT_ROOM
        &&& -AMOUNT_ROOM <= self.peak_balance <= AMOUNT_ROOM
        &&& -AMOUNT_ROOM <= self.total_amount_bought <= AMOUNT_ROOM
        &&& -AMOUNT_ROOM <= self.total_amount_sold <= AMOUNT_ROOM
        &&& -VALUE_ROOM <= self.total_value_bought <= VALUE_ROOM
        &&& -VALUE_ROOM <= self.total_value_sold <= VALUE_ROOM
    }

    /// Whether this is the accumulator of `address` after `events`.
    pub open spec fn tracks(&self, events: Seq<TransferView>, address: Seq<char>) -> bool {
        &&& self.running_balance == balance_after(events, address)
        &&& self.peak_balance == peak_after(events, address)
        &&& self.total_amount_bought == total(events, address, Tally::AmountBought)
        &&& self.total_value_bought == total(events, address, Tally::ValueBought)
        &&& self.total_amount_sold == total(events, address, Tally::AmountSold)
        &&& self.total_value_sold == total(events, address, Tally::ValueSold)
    }

    /// The accumulator of an address that has not been seen yet.
    pub fn new() -> (agg: Self)
        ensures
            agg.running_balance == 0,
            agg.peak_balance == 0,
            agg.total_amount_bought == 0,
            agg.total_value_bought == 0,
            agg.total_amount_sold == 0,
            agg.total_value_sold == 0,
            agg.has_room(),
    {
        AddressAggregate {
            running_balance: 0,
            peak_balance: 0,
            total_amount_bought: 0,
            total_value_bought: 0,
            total_amount_sold: 0,
            total_value_sold: 0,
        }
    }

    /// Records that the address sent `amount` at `usd_price`. A balance
    /// that would fall below zero is reset to zero.
    pub fn debit(&mut self, amount: i32, usd_price: i32)
        requires
            old(self).can_debit(amount, usd_price),
        ensures
            final(self).running_balance == if old(self).running_balance - amount < 0 {
                0
            } else {
                old(self).running_balance - amount
            },
            final(self).running_balance >= 0,
            final(self).peak_balance == old(self).peak_balance,
            final(self).total_amount_sold == old(self).total_amount_sold + amount,
            final(self).total_value_sold == old(self).total_value_sold + amount * usd_price,
            final(self).total_amount_bought == old(self).total_amount_bought,
            final(self).total_value_bought == old(self).total_value_bought,
    {
        let value: i64 = value_of(amount, usd_price);
        let lowered: i128 = self.running_balance - (amount as i128);
        self.running_balance = if lowered < 0 { 0 } else { lowered };
        self.total_amount_sold = self.total_amount_sold + (amount as i128);
        self.total_value_sold = self.total_value_sold + (value as i128);
    }

    /// Records that the address received `amount` at `usd_price`, and
    /// raises the peak to the new balance if that is higher.
    pub fn credit(&mut self, amount: i32, usd_price: i32)
        requires
            old(self).can_credit(amount, usd_price),
        ensures
            final(self).running_balance == old(self).running_balance + amount,
            final(self).peak_balance == if final(self).running_balance > old(self).peak_balance {
                final(self).running_balance
            } else {
                old(self).peak_balance
            },
            final(self).total_amount_bought == old(self).total_amount_bought + amount,
            final(self).total_value_bought == old(self).total_value_bought + amount * usd_price,
            final(self).total_amount_sold == old(self).total_amount_sold,
            final(self).total_value_sold == old(self).total_value_sold,
    {
        let value: i64 = value_of(amount, usd_price);
        self.running_balance = self.running_balance + (amount as i128);
        if self.running_balance > self.peak_balance {
            self.peak_balance = self.running_balance;
        }
        self.total_amount_bought = self.total_amount_bought + (amount as i128);
        self.total_value_bought = self.total_value_bought + (value as i128);
    }

    /// The record that this accumulator stands for.
    pub fn into_stats(self, address: String) -> (stats: UserStats)
        requires
            self.can_summarize(),
        ensures
            stats.address@ == address@,
            stats.total_volume == self.total_amount_bought + self.total_amount_sold,
            stats.avg_buy_price == average_price(
                self.total_value_bought as int,
                self.total_amount_bought as int,
            ),
            stats.avg_sell_price == average_price(
                self.total_value_sold as int,
                self.total_amount_sold as int,
            ),
            stats.max_balance == self.peak_balance,
            forall|events: Seq<TransferView>|
                self.tracks(events, address@) ==> stats@ == stats_for(events, address@),
    {
        UserStats {
            address,
            total_volume: self.total_amount_bought + self.total_amount_sold,
            avg_buy_price: quotient_or_zero(self.total_value_bought, self.total_amount_bought),
            avg_sell_price: quotient_or_zero(self.total_value_sold, self.total_amount_sold),
            max_balance: self.peak_balance,
        }
    }
}

/// The value moved by a transfer: `amount * usd_price`, which always fits.
pub fn value_of(amount: i32, usd_price: i32) -> (value: i64)
    ensures
        value == amount * usd_price,
        -4611686018427387904 <= value <= 4611686018427387904,
{
    assert(-4611686018427387904 <= amount * usd_price <= 4611686018427387904) by (nonlinear_arith)
        requires
            -2147483648 <= amount <= 2147483647,
            -2147483648 <= usd_price <= 2147483647,
    ;
    (amount as i64) * (usd_price as i64)
}

} // verus!
