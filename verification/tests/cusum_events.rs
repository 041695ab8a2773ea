use afml_bars::{compute_cusum_events, Bar};

fn bar(time: u64, close: u64) -> Bar {
    Bar { time, open: close, high: close, low: close, close, volume: 1 }
}

#[test]
fn cusum_flat_series_emits_no_event() {
    let bars = vec![bar(0, 100), bar(1, 100), bar(2, 100), bar(3, 100)];
    let rets = vec![0, 0, 0];
    let events = compute_cusum_events(&bars, &rets, 1);
    assert!(events.is_empty());
}

#[test]
fn cusum_single_upward_crossing() {
    // Rising returns 3 then 4 cross h = 7 exactly at the third bar; one
    // event fires there.
    let bars = vec![bar(0, 100), bar(1, 103), bar(2, 107)];
    let rets = vec![3, 4];
    let events = compute_cusum_events(&bars, &rets, 7);
    assert_eq!(events, vec![(2, 107)]);
}

#[test]
fn cusum_positive_then_negative_crossing() {
    // The upward sum reaches 10 >= 8 at the third bar and resets; the
    // downward sum then reaches -10 <= -8 at the fourth bar.
    let bars = vec![bar(0, 100), bar(1, 105), bar(2, 110), bar(3, 100)];
    let rets = vec![5, 5, -10];
    let events = compute_cusum_events(&bars, &rets, 8);
    assert_eq!(events, vec![(2, 110), (3, 100)]);
}

#[test]
fn cusum_below_threshold_stays_silent() {
    let bars = vec![bar(0, 100), bar(1, 101), bar(2, 100), bar(3, 101)];
    let rets = vec![1, -1, 1];
    let events = compute_cusum_events(&bars, &rets, 2);
    assert!(events.is_empty());
}

#[test]
fn cusum_empty_series() {
    let bars: Vec<Bar> = Vec::new();
    let rets: Vec<i64> = Vec::new();
    assert!(compute_cusum_events(&bars, &rets, 5).is_empty());
}

#[test]
fn cusum_reset_requires_fresh_accumulation() {
    // After the event at the crossing the sum restarts from zero: the tail
    // 5 alone does not reach h = 8 again.
    let bars = vec![bar(0, 100), bar(1, 104), bar(2, 109), bar(3, 114)];
    let rets = vec![4, 5, 5];
    let events = compute_cusum_events(&bars, &rets, 8);
    assert_eq!(events, vec![(2, 109)]);
}

#[test]
fn cusum_one_event_per_bar_positive_side_first() {
    // A single huge upward return triggers only the positive side; each
    // bar emits at most one event.
    let bars = vec![bar(0, 100), bar(1, 200)];
    let rets = vec![100];
    let events = compute_cusum_events(&bars, &rets, 50);
    assert_eq!(events, vec![(1, 200)]);
}
