use afml_bars::{ewma_update, ewma_update_signed, tick_rule_sign};

#[test]
fn tick_rule_signs_over_price_path() {
    // Prices 10, 11, 9, 9, 12 classify as +1, +1, -1, -1, +1: the third
    // trade falls, the fourth repeats the previous sign on an unchanged
    // price, the fifth rises.
    let prices: Vec<u64> = vec![10, 11, 9, 9, 12];
    let mut prev_price = prices[0];
    let mut prev_sign: i64 = 1;
    let mut signs = Vec::new();
    for &p in &prices {
        let s = tick_rule_sign(p, prev_price, prev_sign);
        signs.push(s);
        prev_price = p;
        prev_sign = s;
    }
    assert_eq!(signs, vec![1, 1, -1, -1, 1]);
}

#[test]
fn tick_rule_first_trade_is_buy() {
    // Before any trade the carried sign is +1, and the first trade is
    // compared against its own price, so it keeps that sign.
    assert_eq!(tick_rule_sign(42, 42, 1), 1);
}

#[test]
fn tick_rule_flat_stretch_preserves_last_transition() {
    // After a down-tick, any run of unchanged prices keeps the -1.
    let mut sign = tick_rule_sign(9, 11, 1);
    assert_eq!(sign, -1);
    for _ in 0..5 {
        sign = tick_rule_sign(9, 9, sign);
        assert_eq!(sign, -1);
    }
}

#[test]
fn ewma_update_exact_value() {
    // alpha = 1/20: (1 * 200 + 19 * 100) / 20 = 105.
    assert_eq!(ewma_update(100, 200, 1, 20), 105);
}

#[test]
fn ewma_update_keeps_value_on_equal_observation() {
    assert_eq!(ewma_update(500, 500, 1, 20), 500);
}

#[test]
fn ewma_update_signed_exact_value() {
    // (1 * 200 + 19 * (-100)) / 20 = -1700 / 20 = -85.
    assert_eq!(ewma_update_signed(-100, 200, 1, 20), -85);
}

#[test]
fn ewma_update_signed_truncates_toward_zero() {
    // (1 * 0 + 19 * (-3)) / 20 = -57 / 20, truncated toward zero: -2.
    assert_eq!(ewma_update_signed(-3, 0, 1, 20), -2);
}
