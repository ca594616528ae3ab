use transfer_stats::aggregate::{quotient_or_zero, value_of, AddressAggregate};
use transfer_stats::models::Transfer;
use transfer_stats::table::AggregateTable;

#[test]
fn new_aggregate_is_all_zero() {
    let agg = AddressAggregate::new();
    assert_eq!(agg.running_balance, 0);
    assert_eq!(agg.peak_balance, 0);
    assert_eq!(agg.total_amount_bought, 0);
    assert_eq!(agg.total_value_bought, 0);
    assert_eq!(agg.total_amount_sold, 0);
    assert_eq!(agg.total_value_sold, 0);
}

#[test]
fn credit_raises_balance_and_peak() {
    let mut agg = AddressAggregate::new();
    agg.credit(40, 3);
    assert_eq!(agg.running_balance, 40);
    assert_eq!(agg.peak_balance, 40);
    assert_eq!(agg.total_amount_bought, 40);
    assert_eq!(agg.total_value_bought, 120);
    assert_eq!(agg.total_amount_sold, 0);
    assert_eq!(agg.total_value_sold, 0);
}

#[test]
fn debit_lowers_balance_and_keeps_peak() {
    let mut agg = AddressAggregate::new();
    agg.credit(40, 3);
    agg.debit(15, 5);
    assert_eq!(agg.running_balance, 25);
    assert_eq!(agg.peak_balance, 40);
    assert_eq!(agg.total_amount_sold, 15);
    assert_eq!(agg.total_value_sold, 75);
    assert_eq!(agg.total_amount_bought, 40);
    assert_eq!(agg.total_value_bought, 120);
}

#[test]
fn debit_clamps_balance_to_zero() {
    let mut agg = AddressAggregate::new();
    agg.credit(10, 1);
    agg.debit(25, 1);
    assert_eq!(agg.running_balance, 0);
    assert_eq!(agg.peak_balance, 10);
    agg.credit(4, 1);
    assert_eq!(agg.running_balance, 4);
    assert_eq!(agg.peak_balance, 10);
}

#[test]
fn aggregate_into_stats_applies_the_formulas() {
    let mut agg = AddressAggregate::new();
    agg.credit(10, 2);
    agg.credit(30, 6);
    agg.debit(8, 9);
    let stats = agg.into_stats("a".to_string());
    assert_eq!(stats.address, "a");
    assert_eq!(stats.total_volume, 48);
    assert_eq!(stats.avg_buy_price, 5);
    assert_eq!(stats.avg_sell_price, 9);
    assert_eq!(stats.max_balance, 40);
}

#[test]
fn untouched_aggregate_gives_zero_stats() {
    let stats = AddressAggregate::new().into_stats("nobody".to_string());
    assert_eq!(stats.total_volume, 0);
    assert_eq!(stats.avg_buy_price, 0);
    assert_eq!(stats.avg_sell_price, 0);
    assert_eq!(stats.max_balance, 0);
}

#[test]
fn quotient_or_zero_values() {
    assert_eq!(quotient_or_zero(200, 100), 2);
    assert_eq!(quotient_or_zero(7, 2), 3);
    assert_eq!(quotient_or_zero(-7, 2), -3);
    assert_eq!(quotient_or_zero(7, 0), 0);
    assert_eq!(quotient_or_zero(7, -2), 0);
    assert_eq!(quotient_or_zero(0, 5), 0);
    assert_eq!(quotient_or_zero(i128::MIN, 1), i128::MIN);
    assert_eq!(quotient_or_zero(i128::MAX, 1), i128::MAX);
}

#[test]
fn value_of_values() {
    assert_eq!(value_of(100, 2), 200);
    assert_eq!(value_of(-3, 7), -21);
    assert_eq!(value_of(0, 1000), 0);
    assert_eq!(value_of(i32::MIN, i32::MIN), 4611686018427387904);
    assert_eq!(value_of(i32::MIN, i32::MAX), -4611686016279904256);
}

#[test]
fn table_gives_each_address_one_slot() {
    let mut table = AggregateTable::new();
    assert_eq!(table.len(), 0);
    assert_eq!(table.slot_of(&"a".to_string()), 0);
    assert_eq!(table.slot_of(&"b".to_string()), 1);
    assert_eq!(table.slot_of(&"a".to_string()), 0);
    assert_eq!(table.slot_of(&"c".to_string()), 2);
    assert_eq!(table.len(), 3);
}

#[test]
fn table_apply_and_into_stats() {
    let mut table = AggregateTable::new();
    table.apply(&Transfer {
        ts: 0,
        from: "a".to_string(),
        to: "b".to_string(),
        amount: 100,
        usd_price: 2,
    });
    table.apply(&Transfer {
        ts: 1,
        from: "b".to_string(),
        to: "a".to_string(),
        amount: 40,
        usd_price: 3,
    });
    assert_eq!(table.len(), 2);
    let stats = table.into_stats();
    assert_eq!(stats.len(), 2);
    assert_eq!(stats[0].address, "a");
    assert_eq!(stats[0].total_volume, 140);
    assert_eq!(stats[0].avg_sell_price, 2);
    assert_eq!(stats[0].avg_buy_price, 3);
    assert_eq!(stats[0].max_balance, 40);
    assert_eq!(stats[1].address, "b");
    assert_eq!(stats[1].total_volume, 140);
    assert_eq!(stats[1].max_balance, 100);
}

#[test]
fn empty_table_gives_no_stats() {
    assert!(AggregateTable::new().into_stats().is_empty());
}
