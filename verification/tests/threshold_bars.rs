use afml_bars::{
    compute_dollar_bars, compute_tick_bars, compute_time_bars, compute_volume_bars, Bar, Trade,
};

fn trade(timestamp: u64, price: u64, amount: u64) -> Trade {
    Trade { timestamp, price, amount }
}

#[test]
fn tick_bars_two_per_bar_with_trailing_partial() {
    // Three equal-price trades with an interval of two: one full bar over
    // the first two trades, one trailing partial bar over the third.
    let trades = vec![trade(0, 100, 1), trade(1, 100, 1), trade(2, 100, 1)];
    let bars = compute_tick_bars(&trades, 2);
    assert_eq!(bars.len(), 2);
    assert_eq!(
        bars[0],
        Bar { time: 0, open: 100, high: 100, low: 100, close: 100, volume: 2 }
    );
    assert_eq!(
        bars[1],
        Bar { time: 2, open: 100, high: 100, low: 100, close: 100, volume: 1 }
    );
}

#[test]
fn tick_bars_empty_input() {
    let trades: Vec<Trade> = Vec::new();
    assert!(compute_tick_bars(&trades, 5).is_empty());
}

#[test]
fn tick_bars_exact_multiple_has_no_partial() {
    let trades = vec![trade(0, 10, 1), trade(1, 20, 2), trade(2, 5, 3), trade(3, 15, 4)];
    let bars = compute_tick_bars(&trades, 2);
    assert_eq!(bars.len(), 2);
    assert_eq!(bars[0], Bar { time: 0, open: 10, high: 20, low: 10, close: 20, volume: 3 });
    assert_eq!(bars[1], Bar { time: 2, open: 5, high: 15, low: 5, close: 15, volume: 7 });
}

#[test]
fn volume_bars_flush_on_reaching_threshold() {
    let trades = vec![trade(0, 10, 5), trade(1, 12, 6), trade(2, 11, 2)];
    let bars = compute_volume_bars(&trades, 10);
    assert_eq!(bars.len(), 2);
    assert_eq!(bars[0], Bar { time: 0, open: 10, high: 12, low: 10, close: 12, volume: 11 });
    assert_eq!(bars[1], Bar { time: 2, open: 11, high: 11, low: 11, close: 11, volume: 2 });
}

#[test]
fn volume_bars_empty_input() {
    let trades: Vec<Trade> = Vec::new();
    assert!(compute_volume_bars(&trades, 10).is_empty());
}

#[test]
fn volume_bars_conserve_total_volume() {
    let trades = vec![
        trade(0, 7, 3),
        trade(1, 8, 9),
        trade(2, 6, 1),
        trade(3, 9, 14),
        trade(4, 7, 2),
    ];
    let total: u64 = trades.iter().map(|t| t.amount).sum();
    let bars = compute_volume_bars(&trades, 8);
    let bar_total: u64 = bars.iter().map(|b| b.volume).sum();
    assert_eq!(bar_total, total);
    // Times are non-decreasing.
    for w in bars.windows(2) {
        assert!(w[0].time <= w[1].time);
    }
}

#[test]
fn dollar_bars_flush_on_cumulative_notional() {
    // Dollar values per trade: 50, 60, 30 with a threshold of 100.
    let trades = vec![trade(0, 10, 5), trade(1, 20, 3), trade(2, 30, 1)];
    let bars = compute_dollar_bars(&trades, 100);
    assert_eq!(bars.len(), 2);
    assert_eq!(bars[0], Bar { time: 0, open: 10, high: 20, low: 10, close: 20, volume: 8 });
    assert_eq!(bars[1], Bar { time: 2, open: 30, high: 30, low: 30, close: 30, volume: 1 });
}

#[test]
fn dollar_bars_full_bars_reach_threshold() {
    let trades = vec![
        trade(0, 10, 1),
        trade(1, 10, 2),
        trade(2, 10, 8),
        trade(3, 10, 4),
        trade(4, 10, 7),
    ];
    let threshold: u128 = 100;
    let max_single_dollar: u128 = 80;
    let bars = compute_dollar_bars(&trades, threshold);
    // Every bar except the last reaches the threshold and overshoots it by
    // less than the largest single trade's dollar value; the last is short.
    for (i, b) in bars.iter().enumerate() {
        let dollars = b.volume as u128 * 10;
        if i + 1 < bars.len() {
            assert!(dollars >= threshold);
            assert!(dollars < threshold + max_single_dollar);
        }
    }
}

#[test]
fn time_bars_skip_empty_buckets() {
    // One-minute buckets; the bucket starting at 120 s is empty and simply
    // not emitted.
    let trades = vec![
        trade(0, 100, 1),
        trade(59_999_999, 110, 1),
        trade(60_000_000, 105, 1),
        trade(180_000_000, 120, 1),
    ];
    let bars = compute_time_bars(&trades, 1);
    assert_eq!(bars.len(), 3);
    assert_eq!(bars[0], Bar { time: 0, open: 100, high: 110, low: 100, close: 110, volume: 2 });
    assert_eq!(
        bars[1],
        Bar { time: 60_000_000, open: 105, high: 105, low: 105, close: 105, volume: 1 }
    );
    assert_eq!(
        bars[2],
        Bar { time: 180_000_000, open: 120, high: 120, low: 120, close: 120, volume: 1 }
    );
}

#[test]
fn time_bars_align_buckets_to_epoch() {
    // A trade in mid-bucket anchors the bar at the aligned bucket start.
    let trades = vec![trade(90_000_000, 50, 4)];
    let bars = compute_time_bars(&trades, 1);
    assert_eq!(bars.len(), 1);
    assert_eq!(
        bars[0],
        Bar { time: 60_000_000, open: 50, high: 50, low: 50, close: 50, volume: 4 }
    );
}

#[test]
fn time_bars_empty_input() {
    let trades: Vec<Trade> = Vec::new();
    assert!(compute_time_bars(&trades, 15).is_empty());
}

#[test]
fn time_bars_conserve_total_volume() {
    let trades = vec![
        trade(10, 5, 2),
        trade(61_000_000, 6, 3),
        trade(61_000_001, 7, 4),
        trade(200_000_000, 8, 5),
    ];
    let total: u64 = trades.iter().map(|t| t.amount).sum();
    let bars = compute_time_bars(&trades, 1);
    let bar_total: u64 = bars.iter().map(|b| b.volume).sum();
    assert_eq!(bar_total, total);
}
