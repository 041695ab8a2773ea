//! Time bars: fixed-width clock buckets aligned to the epoch. A trade whose
//! timestamp falls beyond the currently open bucket flushes the open bar —
//! quiet buckets in between are simply skipped, never emitted — and opens a
//! new bar in the bucket that contains the trade. The bar's time is its
//! bucket start. After the last trade an open bar is emitted as a final,
//! possibly short bar.

use vstd::prelude::*;
use vstd::arithmetic::div_mod::{lemma_mod_bound, lemma_mod_decreases};
use crate::base::{
    lemma_sum_amount_nonneg, lemma_sum_amount_take_le, lemma_sum_amount_take_succ, sum_amount,
    sum_bar_volume, Bar, Trade,
};

verus! {

/// Microseconds per minute: bucket width is `interval_minutes` times this.
pub const MICROS_PER_MINUTE: u64 = 60_000_000;

/// The accumulator of the open time bar: OHLCV so far and the start of the
/// clock bucket the bar lives in.
pub struct TimeAcc {
    pub open_px: u64,
    pub high_px: u64,
    pub low_px: u64,
    pub close_px: u64,
    pub volume: int,
    pub bucket: int,
}

/// A time-bar sampler either has no open bar or one open accumulator.
pub enum TimeAccState {
    Empty,
    Open(TimeAcc),
}

/// The time-bar sampler state.
pub struct TimeState {
    pub bars: Seq<Bar>,
    pub acc: TimeAccState,
}

/// The epoch-aligned start of the bucket of width `width` that contains
/// the timestamp.
pub open spec fn bucket_of(ts: u64, width: int) -> int {
    ts - (ts as int) % width
}

/// The bar that an open time accumulator flushes to; its time is the
/// bucket start.
pub open spec fn time_bar_of_acc(a: TimeAcc) -> Bar {
    Bar {
        time: a.bucket as u64,
        open: a.open_px,
        high: a.high_px,
        low: a.low_px,
        close: a.close_px,
        volume: a.volume as u64,
    }
}

/// A fresh time accumulator opened by its first trade.
pub open spec fn time_acc_open(t: Trade, width: int) -> TimeAcc {
    TimeAcc {
        open_px: t.price,
        high_px: t.price,
        low_px: t.price,
        close_px: t.price,
        volume: t.amount as int,
        bucket: bucket_of(t.timestamp, width),
    }
}

/// One step of the time-bar sampler: a trade still inside the open bucket
/// folds into the bar; one beyond it flushes the bar and opens a new one in
/// the trade's own bucket.
pub open spec fn time_step(width: int, st: TimeState, t: Trade) -> TimeState {
    match st.acc {
        TimeAccState::Empty => TimeState {
            bars: st.bars,
            acc: TimeAccState::Open(time_acc_open(t, width)),
        },
        TimeAccState::Open(a) => {
            if t.timestamp < a.bucket + width {
                TimeState {
                    bars: st.bars,
                    acc: TimeAccState::Open(
                        TimeAcc {
                            open_px: a.open_px,
                            high_px: if t.price > a.high_px {
                                t.price
                            } else {
                                a.high_px
                            },
                            low_px: if t.price < a.low_px {
                                t.price
                            } else {
                                a.low_px
                            },
                            close_px: t.price,
                            volume: a.volume + t.amount,
                            bucket: a.bucket,
                        },
                    ),
                }
            } else {
                TimeState {
                    bars: st.bars.push(time_bar_of_acc(a)),
                    acc: TimeAccState::Open(time_acc_open(t, width)),
                }
            }
        },
    }
}

/// The time-bar sampler state after the first `n` trades.
pub open spec fn time_run(width: int, trades: Seq<Trade>, n: int) -> TimeState
    decreases n,
{
    if n <= 0 {
        TimeState { bars: Seq::empty(), acc: TimeAccState::Empty }
    } else {
        time_step(width, time_run(width, trades, n - 1), trades[n - 1])
    }
}

/// The bars the time sampler emits over a whole trade sequence, the
/// trailing open bar included.
pub open spec fn time_bars(width: int, trades: Seq<Trade>) -> Seq<Bar> {
    let st = time_run(width, trades, trades.len() as int);
    match st.acc {
        TimeAccState::Empty => st.bars,
        TimeAccState::Open(a) => st.bars.push(time_bar_of_acc(a)),
    }
}

/// The volume held by a time accumulator, zero when none is open.
pub open spec fn time_acc_volume(acc: TimeAccState) -> int {
    match acc {
        TimeAccState::Empty => 0,
        TimeAccState::Open(a) => a.volume,
    }
}

/// A bucket start lies between zero and its timestamp and is a multiple of
/// the width.
pub proof fn lemma_bucket_range(ts: u64, width: int)
    requires
        1 <= width,
    ensures
        0 <= bucket_of(ts, width) <= ts,
        ts < bucket_of(ts, width) + width,
{
    lemma_mod_bound(ts as int, width);
    lemma_mod_decreases(ts as nat, width as nat);
}

/// The running invariant of the time-bar fold: volumes are conserved and
/// the open accumulator's volume and bucket stay in range.
pub proof fn lemma_time_run_invariant(width: int, trades: Seq<Trade>, n: int)
    requires
        1 <= width,
        0 <= n <= trades.len(),
        sum_amount(trades) <= u64::MAX,
    ensures
        ({
            let st = time_run(width, trades, n);
            &&& sum_bar_volume(st.bars) + time_acc_volume(st.acc) == sum_amount(trades.take(n))
            &&& (st.acc is Empty <==> n == 0)
            &&& match st.acc {
                TimeAccState::Empty => st.bars.len() == 0,
                TimeAccState::Open(a) => {
                    &&& 0 <= a.volume <= sum_amount(trades.take(n))
                    &&& 0 <= a.bucket <= u64::MAX
                },
            }
        }),
    decreases n,
{
    if n > 0 {
        lemma_time_run_invariant(width, trades, n - 1);
        lemma_sum_amount_take_succ(trades, n - 1);
        lemma_sum_amount_take_le(trades, n);
        lemma_sum_amount_nonneg(trades.take(n - 1));
        let t = trades[n - 1];
        lemma_bucket_range(t.timestamp, width);
        let prev = time_run(width, trades, n - 1);
        let st = time_run(width, trades, n);
        if st.bars.len() > prev.bars.len() {
            assert(st.bars.drop_last() =~= prev.bars);
        }
    }
}

/// The running ordering facts of the time-bar fold: emitted bar times
/// strictly increase and all lie before the open bucket.
pub proof fn lemma_time_run_times(width: int, trades: Seq<Trade>, n: int)
    requires
        1 <= width,
        0 <= n <= trades.len(),
    ensures
        ({
            let st = time_run(width, trades, n);
            &&& match st.acc {
                TimeAccState::Empty => st.bars.len() == 0,
                TimeAccState::Open(a) => {
                    &&& 0 <= a.bucket <= u64::MAX
                    &&& forall|i: int|
                        0 <= i < st.bars.len() ==> #[trigger] st.bars[i].time < a.bucket
                },
            }
            &&& forall|i: int, j: int|
                0 <= i < j < st.bars.len() ==> #[trigger] st.bars[i].time
                    < #[trigger] st.bars[j].time
        }),
    decreases n,
{
    if n > 0 {
        lemma_time_run_times(width, trades, n - 1);
        lemma_bucket_range(trades[n - 1].timestamp, width);
    }
}

/// No trade is dropped or double-counted: the volumes of the emitted time
/// bars — the trailing bar included — sum to the total traded amount.
pub proof fn lemma_time_bars_volume(width: int, trades: Seq<Trade>)
    requires
        1 <= width,
        sum_amount(trades) <= u64::MAX,
    ensures
        sum_bar_volume(time_bars(width, trades)) == sum_amount(trades),
{
    let n = trades.len() as int;
    lemma_time_run_invariant(width, trades, n);
    assert(trades.take(n) =~= trades);
    let st = time_run(width, trades, n);
    match st.acc {
        TimeAccState::Empty => {},
        TimeAccState::Open(a) => {
            assert(st.bars.push(time_bar_of_acc(a)).drop_last() =~= st.bars);
        },
    }
}

/// Time bars carry strictly increasing bucket-start times, whatever the
/// input order of the trades.
pub proof fn lemma_time_bars_times(width: int, trades: Seq<Trade>)
    requires
        1 <= width,
    ensures
        ({
            let bars = time_bars(width, trades);
            forall|i: int, j: int|
                0 <= i < j < bars.len() ==> #[trigger] bars[i].time < #[trigger] bars[j].time
        }),
{
    lemma_time_run_times(width, trades, trades.len() as int);
}

/// The exec-side accumulator fields agree with the spec accumulator.
spec fn time_acc_matches(
    acc: TimeAccState,
    has_data: bool,
    open_px: u64,
    high_px: u64,
    low_px: u64,
    close_px: u64,
    volume: u64,
    bucket: u64,
) -> bool {
    match acc {
        TimeAccState::Empty => !has_data,
        TimeAccState::Open(a) => {
            &&& has_data
            &&& a.open_px == open_px
            &&& a.high_px == high_px
            &&& a.low_px == low_px
            &&& a.close_px == close_px
            &&& a.volume == volume as int
            &&& a.bucket == bucket as int
        },
    }
}

/// Fold a trade sequence into time bars of `interval_minutes` minutes,
/// with buckets aligned to the epoch.
pub fn compute_time_bars(trades: &Vec<Trade>, interval_minutes: u64) -> (bars: Vec<Bar>)
    requires
        1 <= interval_minutes,
        interval_minutes * MICROS_PER_MINUTE <= u64::MAX,
        sum_amount(trades@) <= u64::MAX,
    ensures
        bars@ == time_bars(interval_minutes * MICROS_PER_MINUTE, trades@),
{
    let width: u64 = interval_minutes * MICROS_PER_MINUTE;
    let ghost gw: int = width as int;
    let mut bars: Vec<Bar> = Vec::new();
    let mut open_px: u64 = 0;
    let mut high_px: u64 = 0;
    let mut low_px: u64 = 0;
    let mut close_px: u64 = 0;
    let mut volume: u64 = 0;
    let mut bucket: u64 = 0;
    let mut has_data: bool = false;
    let n = trades.len();
    let mut i: usize = 0;
    while i < n
        invariant
            n == trades@.len(),
            0 <= i <= n,
            1 <= gw == width,
            sum_amount(trades@) <= u64::MAX,
            bars@ == time_run(gw, trades@, i as int).bars,
            time_acc_matches(
                time_run(gw, trades@, i as int).acc,
                has_data,
                open_px,
                high_px,
                low_px,
                close_px,
                volume,
                bucket,
            ),
        decreases n - i,
    {
        let t = trades[i];
        proof {
            lemma_time_run_invariant(gw, trades@, i as int);
            lemma_sum_amount_take_succ(trades@, i as int);
            lemma_sum_amount_take_le(trades@, i as int + 1);
            lemma_bucket_range(t.timestamp, gw);
        }
        if !has_data {
            open_px = t.price;
            high_px = t.price;
            low_px = t.price;
            close_px = t.price;
            volume = t.amount;
            bucket = t.timestamp - t.timestamp % width;
            has_data = true;
        } else if t.timestamp >= bucket && t.timestamp - bucket >= width {
            bars.push(
                Bar {
                    time: bucket,
                    open: open_px,
                    high: high_px,
                    low: low_px,
                    close: close_px,
                    volume,
                },
            );
            open_px = t.price;
            high_px = t.price;
            low_px = t.price;
            close_px = t.price;
            volume = t.amount;
            bucket = t.timestamp - t.timestamp % width;
        } else {
            if t.price > high_px {
                high_px = t.price;
            }
            if t.price < low_px {
                low_px = t.price;
            }
            close_px = t.price;
            volume = volume + t.amount;
        }
        i = i + 1;
    }
    proof {
        assert(trades@.take(n as int) =~= trades@);
    }
    if has_data {
        bars.push(
            Bar {
                time: bucket,
                open: open_px,
                high: high_px,
                low: low_px,
                close: close_px,
                volume,
            },
        );
    }
    bars
}

} // verus!
