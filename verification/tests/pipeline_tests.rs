use transfer_stats::models::{Transfer, UserStats};
use transfer_stats::pipeline::{compute_user_stats, MockCalculator, StatsCalculator};

fn transfer(ts: u64, from: &str, to: &str, amount: i32, usd_price: i32) -> Transfer {
    Transfer {
        ts,
        from: from.to_string(),
        to: to.to_string(),
        amount,
        usd_price,
    }
}

fn record<'a>(stats: &'a [UserStats], address: &str) -> &'a UserStats {
    match stats.iter().find(|s| s.address == address) {
        Some(found) => found,
        None => panic!("no record for {}", address),
    }
}

#[test]
fn test_single_transfer() {
    let calculator = MockCalculator::default();

    let transfers = vec![Transfer {
        ts: 0,
        from: "alice".to_string(),
        to: "bob".to_string(),
        amount: 100,
        usd_price: 2,
    }];

    let stats = calculator.calculate_user_stats(&transfers);

    assert_eq!(stats.len(), 2);

    let (alice_stats, bob_stats) = match (
        stats.iter().find(|s| s.address == "alice"),
        stats.iter().find(|s| s.address == "bob"),
    ) {
        (Some(alice_stats), Some(bob_stats)) => (alice_stats, bob_stats),
        _ => panic!("Missing one or more expected addresses"),
    };

    assert_eq!(alice_stats.total_volume, 100);
    assert_eq!(alice_stats.avg_sell_price, 2);
    assert_eq!(alice_stats.avg_buy_price, 0);
    assert_eq!(alice_stats.max_balance, 0);

    assert_eq!(bob_stats.total_volume, 100);
    assert_eq!(bob_stats.avg_buy_price, 2);
    assert_eq!(bob_stats.avg_sell_price, 0);
    assert_eq!(bob_stats.max_balance, 100);
}

#[test]
fn test_multiple_transfers() {
    let calculator = MockCalculator::default();

    let transfers = vec![
        Transfer {
            ts: 0,
            from: "alice".to_string(),
            to: "bob".to_string(),
            amount: 50,
            usd_price: 3,
        },
        Transfer {
            ts: 1,
            from: "bob".to_string(),
            to: "carol".to_string(),
            amount: 30,
            usd_price: 4,
        },
        Transfer {
            ts: 2,
            from: "carol".to_string(),
            to: "alice".to_string(),
            amount: 20,
            usd_price: 5,
        },
    ];

    let stats = calculator.calculate_user_stats(&transfers);

    let (alice, bob, carol) = match (
        stats.iter().find(|s| s.address == "alice"),
        stats.iter().find(|s| s.address == "bob"),
        stats.iter().find(|s| s.address == "carol"),
    ) {
        (Some(alice), Some(bob), Some(carol)) => (alice, bob, carol),
        _ => panic!("Missing one or more expected addresses"),
    };

    assert_eq!(alice.total_volume, 70);
    assert_eq!(alice.avg_sell_price, 3);
    assert_eq!(alice.avg_buy_price, 5);
    assert_eq!(alice.max_balance, 20);

    assert_eq!(bob.total_volume, 80);
    assert_eq!(bob.avg_buy_price, 3);
    assert_eq!(bob.avg_sell_price, 4);
    assert_eq!(bob.max_balance, 50);

    assert_eq!(carol.total_volume, 50);
    assert_eq!(carol.avg_buy_price, 4);
    assert_eq!(carol.avg_sell_price, 5);
    assert_eq!(carol.max_balance, 30);
}

#[test]
fn test_zero_amount_transfer() {
    let calculator = MockCalculator::default();

    let transfers = vec![Transfer {
        ts: 123,
        from: "a".to_string(),
        to: "b".to_string(),
        amount: 0,
        usd_price: 1000,
    }];

    let stats = calculator.calculate_user_stats(&transfers);

    assert_eq!(stats.len(), 2);
    for stat in stats {
        assert_eq!(stat.total_volume, 0);
        assert_eq!(stat.avg_buy_price, 0);
        assert_eq!(stat.avg_sell_price, 0);
        assert_eq!(stat.max_balance, 0);
    }
}

#[test]
fn test_empty_transfers() {
    let calculator = MockCalculator::default();
    let transfers = vec![];
    let stats = calculator.calculate_user_stats(&transfers);
    assert!(stats.is_empty());
}

#[test]
fn free_function_agrees_with_calculator() {
    let transfers = vec![
        transfer(0, "alice", "bob", 50, 3),
        transfer(1, "bob", "carol", 30, 4),
    ];
    let by_trait = MockCalculator::default().calculate_user_stats(&transfers);
    let by_function = compute_user_stats(&transfers);
    assert_eq!(by_trait.len(), by_function.len());
    for (a, b) in by_trait.iter().zip(by_function.iter()) {
        assert_eq!(a.address, b.address);
        assert_eq!(a.total_volume, b.total_volume);
        assert_eq!(a.avg_buy_price, b.avg_buy_price);
        assert_eq!(a.avg_sell_price, b.avg_sell_price);
        assert_eq!(a.max_balance, b.max_balance);
    }
}

#[test]
fn records_come_in_order_of_first_occurrence() {
    let transfers = vec![
        transfer(0, "carol", "alice", 1, 1),
        transfer(1, "bob", "carol", 1, 1),
        transfer(2, "alice", "dave", 1, 1),
    ];
    let stats = compute_user_stats(&transfers);
    let addresses: Vec<&str> = stats.iter().map(|s| s.address.as_str()).collect();
    assert_eq!(addresses, vec!["carol", "alice", "bob", "dave"]);
}

#[test]
fn one_record_per_address() {
    let transfers = vec![
        transfer(0, "a", "b", 5, 1),
        transfer(1, "b", "a", 5, 1),
        transfer(2, "a", "b", 5, 1),
        transfer(3, "a", "a", 5, 1),
    ];
    let stats = compute_user_stats(&transfers);
    assert_eq!(stats.len(), 2);
    assert_eq!(record(&stats, "a").total_volume, 25);
    assert_eq!(record(&stats, "b").total_volume, 15);
}

#[test]
fn self_transfer_is_debited_then_credited() {
    let transfers = vec![transfer(0, "a", "a", 10, 7)];
    let stats = compute_user_stats(&transfers);
    assert_eq!(stats.len(), 1);
    let a = record(&stats, "a");
    assert_eq!(a.total_volume, 20);
    assert_eq!(a.avg_buy_price, 7);
    assert_eq!(a.avg_sell_price, 7);
    // The debit clamps the balance to zero before the credit raises it.
    assert_eq!(a.max_balance, 10);
}

#[test]
fn balance_is_clamped_at_zero_after_a_debit() {
    let transfers = vec![
        transfer(0, "a", "b", 100, 1),
        transfer(1, "b", "a", 30, 1),
        transfer(2, "a", "b", 50, 1),
        transfer(3, "b", "a", 5, 1),
    ];
    let stats = compute_user_stats(&transfers);
    let a = record(&stats, "a");
    // a: 0 -> 0 (clamped) -> 30 -> 0 (clamped) -> 5
    assert_eq!(a.max_balance, 30);
    assert_eq!(a.total_volume, 185);
    let b = record(&stats, "b");
    // b: 100 -> 70 -> 120 -> 115
    assert_eq!(b.max_balance, 120);
}

#[test]
fn peak_is_never_negative() {
    let transfers = vec![
        transfer(0, "a", "b", -40, 2),
        transfer(1, "c", "b", -10, 2),
        transfer(2, "b", "a", 500, 2),
    ];
    let stats = compute_user_stats(&transfers);
    for s in &stats {
        assert!(s.max_balance >= 0, "negative peak for {}", s.address);
    }
    assert_eq!(record(&stats, "b").max_balance, 0);
    assert_eq!(record(&stats, "b").total_volume, 450);
    // a: debit of -40 raises the balance to 40; only receipts move the peak.
    assert_eq!(record(&stats, "a").max_balance, 540);
}

#[test]
fn averages_are_value_weighted() {
    let transfers = vec![
        transfer(0, "x", "a", 10, 2),
        transfer(1, "y", "a", 30, 6),
    ];
    let stats = compute_user_stats(&transfers);
    // (10 * 2 + 30 * 6) / 40 = 5
    assert_eq!(record(&stats, "a").avg_buy_price, 5);
    assert_eq!(record(&stats, "a").avg_sell_price, 0);
    assert_eq!(record(&stats, "x").avg_sell_price, 2);
    assert_eq!(record(&stats, "y").avg_sell_price, 6);
}

#[test]
fn averages_round_toward_zero() {
    let up = compute_user_stats(&[transfer(0, "x", "a", 1, 7), transfer(1, "x", "a", 1, 0)]);
    assert_eq!(record(&up, "a").avg_buy_price, 3);
    let down = compute_user_stats(&[transfer(0, "x", "a", 1, -7), transfer(1, "x", "a", 1, 0)]);
    assert_eq!(record(&down, "a").avg_buy_price, -3);
    assert_eq!(record(&down, "x").avg_sell_price, -3);
}

#[test]
fn average_is_zero_where_the_amount_is_not_positive() {
    let stats = compute_user_stats(&[transfer(0, "x", "a", -4, 9)]);
    assert_eq!(record(&stats, "a").avg_buy_price, 0);
    assert_eq!(record(&stats, "a").total_volume, -4);
    assert_eq!(record(&stats, "x").avg_sell_price, 0);
}

#[test]
fn totals_do_not_depend_on_the_order() {
    let forward = vec![
        transfer(0, "a", "b", 100, 3),
        transfer(1, "b", "c", 70, 5),
        transfer(2, "c", "a", 20, 11),
        transfer(3, "a", "c", 60, 2),
        transfer(4, "b", "b", 9, 4),
    ];
    let mut backward = forward.clone();
    backward.reverse();
    let first = compute_user_stats(&forward);
    let second = compute_user_stats(&backward);
    assert_eq!(first.len(), second.len());
    for s in &first {
        let t = record(&second, &s.address);
        assert_eq!(s.total_volume, t.total_volume);
        assert_eq!(s.avg_buy_price, t.avg_buy_price);
        assert_eq!(s.avg_sell_price, t.avg_sell_price);
    }
    assert_eq!(record(&first, "a").total_volume, 180);
    assert_eq!(record(&first, "c").avg_buy_price, 3);
}

#[test]
fn peak_depends_on_the_order() {
    let spread = vec![
        transfer(0, "x", "a", 10, 1),
        transfer(1, "a", "y", 10, 1),
        transfer(2, "x", "a", 10, 1),
    ];
    let bunched = vec![
        transfer(0, "x", "a", 10, 1),
        transfer(2, "x", "a", 10, 1),
        transfer(1, "a", "y", 10, 1),
    ];
    let first = compute_user_stats(&spread);
    let second = compute_user_stats(&bunched);
    assert_eq!(record(&first, "a").max_balance, 10);
    assert_eq!(record(&second, "a").max_balance, 20);
    assert_eq!(record(&first, "a").total_volume, record(&second, "a").total_volume);
}

#[test]
fn extreme_values_do_not_overflow() {
    let mut transfers = Vec::new();
    for i in 0..1000u64 {
        transfers.push(transfer(i, "a", "b", i32::MIN, i32::MIN));
        transfers.push(transfer(i, "b", "a", i32::MAX, i32::MAX));
    }
    let stats = compute_user_stats(&transfers);
    let a = record(&stats, "a");
    let min = i32::MIN as i128;
    let max = i32::MAX as i128;
    assert_eq!(a.total_volume, 1000 * (min + max));
    // a sells 1000 * MIN, which is not positive.
    assert_eq!(a.avg_sell_price, 0);
    assert_eq!(a.avg_buy_price, max);
}

#[test]
fn timestamps_are_not_read() {
    let early = compute_user_stats(&[transfer(0, "a", "b", 10, 2)]);
    let late = compute_user_stats(&[transfer(u64::MAX, "a", "b", 10, 2)]);
    assert_eq!(record(&early, "b").max_balance, record(&late, "b").max_balance);
    assert_eq!(record(&early, "a").total_volume, record(&late, "a").total_volume);
}
