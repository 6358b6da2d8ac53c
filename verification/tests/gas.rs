use dex_arbitrage::gas::{
    best_execution_time, flashloan_arb_gas_limit, optimal_execution_block, swap_gas_limit,
    time_slot,
};

/// An integer that orders finite floats as they compare.
fn price_key(x: f64) -> u64 {
    let x = if x == 0.0 { 0.0 } else { x };
    let b = x.to_bits();
    if b >> 63 == 1 {
        !b
    } else {
        b | (1u64 << 63)
    }
}

fn keys(xs: &[f64]) -> Vec<u64> {
    xs.iter().map(|x| price_key(*x)).collect()
}

#[test]
fn test_optimal_block() {
    let predictions = vec![60.0, 55.0, 45.0, 50.0, 55.0];

    let optimal = optimal_execution_block(&keys(&predictions), 5);
    assert_eq!(optimal, 2); // Index of 45.0
}

#[test]
fn optimal_block_respects_deadline() {
    let predictions = keys(&[60.0, 55.0, 45.0, 50.0, 55.0]);
    assert_eq!(optimal_execution_block(&predictions, 2), 1);
    assert_eq!(optimal_execution_block(&predictions, 100), 2);
}

#[test]
fn optimal_block_empty_window() {
    assert_eq!(optimal_execution_block(&keys(&[]), 5), 0);
    assert_eq!(optimal_execution_block(&keys(&[10.0, 5.0]), 0), 0);
}

#[test]
fn optimal_block_first_of_ties() {
    assert_eq!(optimal_execution_block(&keys(&[7.0, 3.0, 9.0, 3.0]), 4), 1);
}

#[test]
fn price_keys_order_like_floats() {
    let xs = [-3.5, -0.0, 0.0, 1e-300, 2.0, 45.0, 1e300];
    for w in xs.windows(2) {
        assert!(price_key(w[0]) <= price_key(w[1]));
    }
    assert_eq!(price_key(-0.0), price_key(0.0));
}

#[test]
fn gas_limits() {
    assert_eq!(swap_gas_limit(), 150_000);
    assert_eq!(flashloan_arb_gas_limit(0), 100_000);
    assert_eq!(flashloan_arb_gas_limit(2), 400_000);
    assert_eq!(flashloan_arb_gas_limit(u32::MAX), 100_000 + 150_000 * u32::MAX as u64);
}

#[test]
fn time_slots_wrap() {
    assert_eq!(time_slot(0, 0), 0);
    assert_eq!(time_slot(3, 1), 22);
    assert_eq!(time_slot(27, 8), 22);
    assert_eq!(time_slot(23, 6), 167);
}

fn typical_slot_keys() -> Vec<u64> {
    let hourly = [
        35.0, 30.0, 28.0, 25.0, 25.0, 28.0, 35.0, 45.0, 55.0, 60.0, 65.0, 70.0, 75.0, 80.0, 85.0,
        80.0, 75.0, 70.0, 65.0, 60.0, 55.0, 50.0, 45.0, 40.0,
    ];
    let days = [0.7, 1.0, 1.1, 1.1, 1.0, 0.9, 0.7];
    let mut slots = vec![0u64; 24 * 7];
    for h in 0..24 {
        for d in 0..7 {
            slots[time_slot(h, d)] = price_key(hourly[h] * days[d]);
        }
    }
    slots
}

#[test]
fn best_time_within_a_day() {
    // From 20:00 on a Monday, the next 12 hours reach 03:00 on Tuesday, the first cheapest.
    assert_eq!(best_execution_time(&typical_slot_keys(), 20, 1, 12), (3, 2, true));
}

#[test]
fn best_time_prefers_weekend() {
    // From noon on Friday over two days the cheapest hour is 03:00 on Saturday.
    assert_eq!(best_execution_time(&typical_slot_keys(), 12, 5, 48), (3, 6, true));
}

#[test]
fn best_time_without_hours_keeps_current() {
    assert_eq!(best_execution_time(&typical_slot_keys(), 30, 9, 0), (30, 9, false));
}

#[test]
fn best_time_single_hour_wraps() {
    assert_eq!(best_execution_time(&typical_slot_keys(), 30, 9, 1), (6, 3, true));
}

#[test]
fn best_time_at_the_end_of_the_range() {
    let hour = usize::MAX % 24;
    let day = (usize::MAX / 24) % 7;
    assert_eq!(best_execution_time(&typical_slot_keys(), usize::MAX, 0, 1), (hour, day, true));
}
