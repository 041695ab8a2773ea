use afml_bars::{
    compute_tick_imbalance_bars, compute_volume_imbalance_bars, Bar, Trade,
};

fn trade(timestamp: u64, price: u64, amount: u64) -> Trade {
    Trade { timestamp, price, amount }
}

#[test]
fn tick_imbalance_flush_at_adaptive_threshold() {
    // Seed: 4.0 expected ticks (in millionths) and the initial ratio guess
    // of 0.5 give a first threshold of 2 ticks of imbalance. The first two
    // trades both classify +1, so the second trade flushes; its timestamp
    // stamps the bar. The remaining trades never rebuild an imbalance of 2
    // and the fragment is discarded.
    let trades = vec![
        trade(0, 10, 1),
        trade(1, 11, 1),
        trade(2, 12, 1),
        trade(3, 11, 1),
        trade(4, 10, 1),
    ];
    let bars = compute_tick_imbalance_bars(&trades, 4_000_000);
    assert_eq!(bars.len(), 1);
    assert_eq!(bars[0], Bar { time: 1, open: 10, high: 11, low: 10, close: 11, volume: 2 });
}

#[test]
fn tick_imbalance_empty_input() {
    let trades: Vec<Trade> = Vec::new();
    assert!(compute_tick_imbalance_bars(&trades, 1_000_000).is_empty());
}

#[test]
fn tick_imbalance_volume_never_exceeds_total() {
    let trades = vec![
        trade(0, 10, 2),
        trade(1, 11, 3),
        trade(2, 12, 4),
        trade(3, 11, 5),
        trade(4, 13, 6),
        trade(5, 14, 7),
    ];
    let total: u64 = trades.iter().map(|t| t.amount).sum();
    let bars = compute_tick_imbalance_bars(&trades, 3_000_000);
    let bar_total: u64 = bars.iter().map(|b| b.volume).sum();
    assert!(bar_total <= total);
}

#[test]
fn tick_imbalance_prefix_of_tape_keeps_earlier_bars() {
    // Dropping the last trades never rewrites bars that already flushed.
    let trades = vec![
        trade(0, 10, 1),
        trade(1, 11, 1),
        trade(2, 12, 1),
        trade(3, 13, 1),
        trade(4, 12, 1),
        trade(5, 14, 1),
    ];
    let full = compute_tick_imbalance_bars(&trades, 2_000_000);
    for k in 0..trades.len() {
        let prefix: Vec<Trade> = trades[..k].to_vec();
        let partial = compute_tick_imbalance_bars(&prefix, 2_000_000);
        assert!(partial.len() <= full.len());
        assert_eq!(&full[..partial.len()], &partial[..]);
    }
}

#[test]
fn volume_imbalance_flush_at_adaptive_threshold() {
    // Seed 4.0 expected volume and ratio 0.5: threshold 2.0 of signed
    // volume. The first trade alone carries +2 and flushes; the adapted
    // threshold (3.9 * 0.525 = 2.0475) is then beaten by the second
    // trade's +3.
    let trades = vec![trade(0, 10, 2), trade(1, 12, 3)];
    let bars = compute_volume_imbalance_bars(&trades, 4_000_000);
    assert_eq!(bars.len(), 2);
    assert_eq!(bars[0], Bar { time: 0, open: 10, high: 10, low: 10, close: 10, volume: 2 });
    assert_eq!(bars[1], Bar { time: 1, open: 12, high: 12, low: 12, close: 12, volume: 3 });
}

#[test]
fn volume_imbalance_empty_input() {
    let trades: Vec<Trade> = Vec::new();
    assert!(compute_volume_imbalance_bars(&trades, 1_000_000).is_empty());
}

#[test]
fn volume_imbalance_discards_trailing_fragment() {
    // A large seed keeps the threshold out of reach: every trade stays in
    // the open fragment and no bar is ever emitted.
    let trades = vec![trade(0, 10, 1), trade(1, 11, 1), trade(2, 12, 1)];
    let bars = compute_volume_imbalance_bars(&trades, 1_000_000_000_000);
    assert!(bars.is_empty());
}
