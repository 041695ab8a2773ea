//! Fixed-threshold bar samplers: one generic accumulator folds a trade
//! sequence into bars whenever a chosen metric — trade count, traded volume,
//! or traded dollar value — accumulated trade by trade reaches a positive
//! threshold. At the end of the stream an unflushed accumulator is emitted
//! as a final, possibly under-threshold bar. Time bars, whose boundary is a
//! clock bucket rather than an accumulated metric, live in `time_bar`.

use vstd::prelude::*;
use crate::base::{
    lemma_sum_amount_nonneg, lemma_sum_amount_take_le, lemma_sum_amount_take_succ, sum_amount,
    sum_bar_volume, timestamps_sorted, Bar, Trade,
};

verus! {

/// The accumulation metric of a fixed-threshold sampler.
#[derive(Clone, Copy, PartialEq, Eq, Structural, Debug)]
pub enum BarMetric {
    /// Count of trades: threshold `k` yields tick bars of `k` trades each.
    Tick,
    /// Cumulative traded amount: yields volume bars.
    Volume,
    /// Cumulative price times amount: yields dollar bars.
    Dollar,
}

/// The contribution of one trade to the flush metric.
pub open spec fn metric_of(kind: BarMetric, t: Trade) -> int {
    match kind {
        BarMetric::Tick => 1,
        BarMetric::Volume => t.amount as int,
        BarMetric::Dollar => (t.price as int) * (t.amount as int),
    }
}

/// Sum of the metric contributions of a trade sequence.
pub open spec fn sum_metric(kind: BarMetric, trades: Seq<Trade>) -> int
    decreases trades.len(),
{
    if trades.len() == 0 {
        0
    } else {
        sum_metric(kind, trades.drop_last()) + metric_of(kind, trades.last())
    }
}

/// The accumulator of the bar being built: OHLCV so far, the anchor
/// timestamp of the first trade, and the running metric together with the
/// per-bar trade count and the largest single contribution (the latter two
/// are bookkeeping that the flush-bound lemmas are stated over).
pub struct BarAcc {
    pub open_px: u64,
    pub high_px: u64,
    pub low_px: u64,
    pub close_px: u64,
    pub volume: int,
    pub anchor: u64,
    pub count: int,
    pub metric: int,
    pub max_one: int,
}

/// A sampler either has no bar under construction or one open accumulator.
pub enum ThrAcc {
    Empty,
    Open(BarAcc),
}

/// What is known of an emitted bar beyond its OHLCV fields: how many trades
/// it accounts for, its accumulated metric, and the largest single
/// contribution within it.
pub struct BarTally {
    pub count: int,
    pub metric: int,
    pub max_one: int,
}

/// The sampler state: emitted bars, their tallies, and the accumulator.
pub struct ThrState {
    pub bars: Seq<Bar>,
    pub tallies: Seq<BarTally>,
    pub acc: ThrAcc,
}

/// The bar that an accumulator flushes to; its time is the anchor timestamp
/// of the first trade folded into it.
pub open spec fn bar_of_acc(a: BarAcc) -> Bar {
    Bar {
        time: a.anchor,
        open: a.open_px,
        high: a.high_px,
        low: a.low_px,
        close: a.close_px,
        volume: a.volume as u64,
    }
}

/// The tally that an accumulator flushes to.
pub open spec fn tally_of_acc(a: BarAcc) -> BarTally {
    BarTally { count: a.count, metric: a.metric, max_one: a.max_one }
}

/// A fresh accumulator opened by its first trade.
pub open spec fn acc_open_trade(t: Trade) -> BarAcc {
    BarAcc {
        open_px: t.price,
        high_px: t.price,
        low_px: t.price,
        close_px: t.price,
        volume: t.amount as int,
        anchor: t.timestamp,
        count: 0,
        metric: 0,
        max_one: 0,
    }
}

/// An open accumulator updated by one more trade: high and low widen,
/// close follows, volume grows.
pub open spec fn acc_fold_trade(a: BarAcc, t: Trade) -> BarAcc {
    BarAcc {
        open_px: a.open_px,
        high_px: if t.price > a.high_px {
            t.price
        } else {
            a.high_px
        },
        low_px: if t.price < a.low_px {
            t.price
        } else {
            a.low_px
        },
        close_px: t.price,
        volume: a.volume + t.amount,
        anchor: a.anchor,
        count: a.count,
        metric: a.metric,
        max_one: a.max_one,
    }
}

/// One step of the sampler: fold the trade into the accumulator (opening a
/// fresh one if none is open), charge the trade's metric contribution, and
/// flush the bar once the metric reaches the threshold.
pub open spec fn thr_step(kind: BarMetric, threshold: int, st: ThrState, t: Trade) -> ThrState {
    let folded = match st.acc {
        ThrAcc::Empty => acc_open_trade(t),
        ThrAcc::Open(a) => acc_fold_trade(a, t),
    };
    let m = metric_of(kind, t);
    let charged = BarAcc {
        open_px: folded.open_px,
        high_px: folded.high_px,
        low_px: folded.low_px,
        close_px: folded.close_px,
        volume: folded.volume,
        anchor: folded.anchor,
        count: folded.count + 1,
        metric: folded.metric + m,
        max_one: if m > folded.max_one {
            m
        } else {
            folded.max_one
        },
    };
    if charged.metric >= threshold {
        ThrState {
            bars: st.bars.push(bar_of_acc(charged)),
            tallies: st.tallies.push(tally_of_acc(charged)),
            acc: ThrAcc::Empty,
        }
    } else {
        ThrState { bars: st.bars, tallies: st.tallies, acc: ThrAcc::Open(charged) }
    }
}

/// The state before any trade.
pub open spec fn thr_init() -> ThrState {
    ThrState { bars: Seq::empty(), tallies: Seq::empty(), acc: ThrAcc::Empty }
}

/// The sampler state after the first `n` trades.
pub open spec fn thr_run(kind: BarMetric, threshold: int, trades: Seq<Trade>, n: int) -> ThrState
    decreases n,
{
    if n <= 0 {
        thr_init()
    } else {
        thr_step(kind, threshold, thr_run(kind, threshold, trades, n - 1), trades[n - 1])
    }
}

/// The bars a fixed-threshold sampler emits over a whole trade sequence:
/// every flushed bar, then the trailing under-threshold bar if the
/// accumulator still holds data at the end of the stream.
pub open spec fn threshold_bars(kind: BarMetric, threshold: int, trades: Seq<Trade>) -> Seq<Bar> {
    let st = thr_run(kind, threshold, trades, trades.len() as int);
    match st.acc {
        ThrAcc::Empty => st.bars,
        ThrAcc::Open(a) => st.bars.push(bar_of_acc(a)),
    }
}

/// The tallies of those bars, in the same order.
pub open spec fn threshold_bar_tallies(
    kind: BarMetric,
    threshold: int,
    trades: Seq<Trade>,
) -> Seq<BarTally> {
    let st = thr_run(kind, threshold, trades, trades.len() as int);
    match st.acc {
        ThrAcc::Empty => st.tallies,
        ThrAcc::Open(a) => st.tallies.push(tally_of_acc(a)),
    }
}

/// The volume held by an accumulator, zero when none is open.
pub open spec fn acc_volume(acc: ThrAcc) -> int {
    match acc {
        ThrAcc::Empty => 0,
        ThrAcc::Open(a) => a.volume,
    }
}

/// The exec-side accumulator fields agree with the spec accumulator.
spec fn acc_matches(
    acc: ThrAcc,
    has_data: bool,
    open_px: u64,
    high_px: u64,
    low_px: u64,
    close_px: u64,
    volume: u64,
    anchor: u64,
    metric: u128,
) -> bool {
    match acc {
        ThrAcc::Empty => !has_data && metric == 0,
        ThrAcc::Open(a) => {
            &&& has_data
            &&& a.open_px == open_px
            &&& a.high_px == high_px
            &&& a.low_px == low_px
            &&& a.close_px == close_px
            &&& a.volume == volume as int
            &&& a.anchor == anchor
            &&& a.metric == metric as int
        },
    }
}

/// A metric contribution is never negative.
pub proof fn lemma_metric_nonneg(kind: BarMetric, t: Trade)
    ensures
        metric_of(kind, t) >= 0,
{
    assert((t.price as int) * (t.amount as int) >= 0) by (nonlinear_arith);
}

/// Appending a trade adds its contribution to the metric sum.
pub proof fn lemma_sum_metric_take_succ(kind: BarMetric, trades: Seq<Trade>, i: int)
    requires
        0 <= i < trades.len(),
    ensures
        sum_metric(kind, trades.take(i + 1)) == sum_metric(kind, trades.take(i)) + metric_of(
            kind,
            trades[i],
        ),
{
    assert(trades.take(i + 1).drop_last() =~= trades.take(i));
}

/// A prefix never sums to more metric than the whole sequence.
pub proof fn lemma_sum_metric_take_le(kind: BarMetric, trades: Seq<Trade>, i: int)
    requires
        0 <= i <= trades.len(),
    ensures
        sum_metric(kind, trades.take(i)) <= sum_metric(kind, trades),
    decreases trades.len() - i,
{
    if i == trades.len() {
        assert(trades.take(i) =~= trades);
    } else {
        lemma_sum_metric_take_succ(kind, trades, i);
        lemma_metric_nonneg(kind, trades[i]);
        lemma_sum_metric_take_le(kind, trades, i + 1);
    }
}

/// A metric sum is never negative.
pub proof fn lemma_sum_metric_nonneg(kind: BarMetric, trades: Seq<Trade>)
    ensures
        sum_metric(kind, trades) >= 0,
    decreases trades.len(),
{
    if trades.len() > 0 {
        lemma_sum_metric_nonneg(kind, trades.drop_last());
        lemma_metric_nonneg(kind, trades.last());
    }
}

/// The tick metric of a sequence is its length.
pub proof fn lemma_sum_metric_tick(trades: Seq<Trade>)
    ensures
        sum_metric(BarMetric::Tick, trades) == trades.len(),
    decreases trades.len(),
{
    if trades.len() > 0 {
        lemma_sum_metric_tick(trades.drop_last());
    }
}

/// The volume metric of a sequence is its amount sum.
pub proof fn lemma_sum_metric_volume(trades: Seq<Trade>)
    ensures
        sum_metric(BarMetric::Volume, trades) == sum_amount(trades),
    decreases trades.len(),
{
    if trades.len() > 0 {
        lemma_sum_metric_volume(trades.drop_last());
    }
}

/// The running invariant of the sampler fold: tallies and bars stay in
/// step, and the open accumulator's volume and metric are bounded by the
/// prefix sums, with the metric strictly below the threshold.
pub proof fn lemma_thr_run_invariant(kind: BarMetric, threshold: int, trades: Seq<Trade>, n: int)
    requires
        1 <= threshold,
        0 <= n <= trades.len(),
        sum_amount(trades) <= u64::MAX,
    ensures
        ({
            let st = thr_run(kind, threshold, trades, n);
            &&& st.bars.len() == st.tallies.len()
            &&& sum_bar_volume(st.bars) + acc_volume(st.acc) == sum_amount(trades.take(n))
            &&& match st.acc {
                ThrAcc::Empty => true,
                ThrAcc::Open(a) => {
                    &&& 0 <= a.volume <= sum_amount(trades.take(n))
                    &&& 0 <= a.metric < threshold
                    &&& a.metric <= sum_metric(kind, trades.take(n))
                    &&& 1 <= a.count
                    &&& 0 <= a.max_one
                },
            }
        }),
    decreases n,
{
    if n > 0 {
        lemma_thr_run_invariant(kind, threshold, trades, n - 1);
        lemma_sum_amount_take_succ(trades, n - 1);
        lemma_sum_amount_take_le(trades, n);
        lemma_sum_amount_nonneg(trades.take(n - 1));
        lemma_sum_metric_take_succ(kind, trades, n - 1);
        lemma_sum_metric_nonneg(kind, trades.take(n - 1));
        lemma_metric_nonneg(kind, trades[n - 1]);
        let prev = thr_run(kind, threshold, trades, n - 1);
        let st = thr_run(kind, threshold, trades, n);
        if st.bars.len() > prev.bars.len() {
            assert(st.bars.last().volume + sum_bar_volume(prev.bars) == sum_bar_volume(
                st.bars,
            )) by {
                assert(st.bars.drop_last() =~= prev.bars);
            }
        }
    }
}

/// Fold a trade sequence into bars under a fixed metric threshold.
///
/// This is the generic engine behind tick, volume and dollar bars: the
/// result is exactly the spec-level fold `threshold_bars`.
pub fn compute_threshold_bars(trades: &Vec<Trade>, kind: BarMetric, threshold: u128) -> (bars: Vec<
    Bar,
>)
    requires
        1 <= threshold,
        sum_amount(trades@) <= u64::MAX,
        sum_metric(kind, trades@) <= u128::MAX,
    ensures
        bars@ == threshold_bars(kind, threshold as int, trades@),
{
    let ghost gthr: int = threshold as int;
    let mut bars: Vec<Bar> = Vec::new();
    let mut open_px: u64 = 0;
    let mut high_px: u64 = 0;
    let mut low_px: u64 = 0;
    let mut close_px: u64 = 0;
    let mut volume: u64 = 0;
    let mut anchor: u64 = 0;
    let mut metric: u128 = 0;
    let mut has_data: bool = false;
    let n = trades.len();
    let mut i: usize = 0;
    while i < n
        invariant
            n == trades@.len(),
            0 <= i <= n,
            1 <= gthr == threshold,
            sum_amount(trades@) <= u64::MAX,
            sum_metric(kind, trades@) <= u128::MAX,
            bars@ == thr_run(kind, gthr, trades@, i as int).bars,
            acc_matches(
                thr_run(kind, gthr, trades@, i as int).acc,
                has_data,
                open_px,
                high_px,
                low_px,
                close_px,
                volume,
                anchor,
                metric,
            ),
        decreases n - i,
    {
        let t = trades[i];
        proof {
            lemma_thr_run_invariant(kind, gthr, trades@, i as int);
            lemma_sum_amount_take_succ(trades@, i as int);
            lemma_sum_amount_take_le(trades@, i as int + 1);
            lemma_sum_metric_take_succ(kind, trades@, i as int);
            lemma_sum_metric_take_le(kind, trades@, i as int + 1);
            lemma_metric_nonneg(kind, t);
        }
        if !has_data {
            open_px = t.price;
            high_px = t.price;
            low_px = t.price;
            close_px = t.price;
            volume = t.amount;
            anchor = t.timestamp;
            has_data = true;
        } else {
            if t.price > high_px {
                high_px = t.price;
            }
            if t.price < low_px {
                low_px = t.price;
            }
            close_px = t.price;
            volume = volume + t.amount;
        }
        let delta: u128 = match kind {
            BarMetric::Tick => 1,
            BarMetric::Volume => t.amount as u128,
            BarMetric::Dollar => {
                proof {
                    assert((t.price as int) * (t.amount as int) <= u128::MAX)
                        by (nonlinear_arith)
                        requires
                            t.price <= u64::MAX,
                            t.amount <= u64::MAX,
                    ;
                }
                (t.price as u128) * (t.amount as u128)
            },
        };
        proof {
            lemma_sum_metric_nonneg(kind, trades@.take(i as int));
            assert(delta == metric_of(kind, t));
            assert(metric + delta <= sum_metric(kind, trades@.take(i as int + 1)));
        }
        metric = metric + delta;
        if metric >= threshold {
            bars.push(
                Bar {
                    time: anchor,
                    open: open_px,
                    high: high_px,
                    low: low_px,
                    close: close_px,
                    volume,
                },
            );
            has_data = false;
            metric = 0;
        }
        i = i + 1;
    }
    proof {
        assert(trades@.take(n as int) =~= trades@);
    }
    if has_data {
        bars.push(
            Bar {
                time: anchor,
                open: open_px,
                high: high_px,
                low: low_px,
                close: close_px,
                volume,
            },
        );
    }
    bars
}

/// Tick bars: a bar flushes after every `interval_trades` trades; the last
/// bar may cover fewer.
pub fn compute_tick_bars(trades: &Vec<Trade>, interval_trades: usize) -> (bars: Vec<Bar>)
    requires
        1 <= interval_trades,
        sum_amount(trades@) <= u64::MAX,
    ensures
        bars@ == threshold_bars(BarMetric::Tick, interval_trades as int, trades@),
{
    let n = trades.len();
    proof {
        lemma_sum_metric_tick(trades@);
        assert(sum_metric(BarMetric::Tick, trades@) == n);
    }
    compute_threshold_bars(trades, BarMetric::Tick, interval_trades as u128)
}

/// Volume bars: a bar flushes once its cumulative traded amount reaches
/// `interval_volume`.
pub fn compute_volume_bars(trades: &Vec<Trade>, interval_volume: u64) -> (bars: Vec<Bar>)
    requires
        1 <= interval_volume,
        sum_amount(trades@) <= u64::MAX,
    ensures
        bars@ == threshold_bars(BarMetric::Volume, interval_volume as int, trades@),
{
    proof {
        lemma_sum_metric_volume(trades@);
    }
    compute_threshold_bars(trades, BarMetric::Volume, interval_volume as u128)
}

/// No trade is dropped or double-counted: over a whole trade sequence the
/// volumes of the emitted bars — the trailing partial bar included — sum to
/// the total traded amount.
pub proof fn lemma_threshold_bars_volume(kind: BarMetric, threshold: int, trades: Seq<Trade>)
    requires
        1 <= threshold,
        sum_amount(trades) <= u64::MAX,
    ensures
        sum_bar_volume(threshold_bars(kind, threshold, trades)) == sum_amount(trades),
{
    let n = trades.len() as int;
    lemma_thr_run_invariant(kind, threshold, trades, n);
    assert(trades.take(n) =~= trades);
    let st = thr_run(kind, threshold, trades, n);
    match st.acc {
        ThrAcc::Empty => {},
        ThrAcc::Open(a) => {
            let bars = st.bars.push(bar_of_acc(a));
            assert(bars.drop_last() =~= st.bars);
        },
    }
}

/// Sum of the per-bar trade counts of a tally sequence.
pub open spec fn sum_tally_count(tallies: Seq<BarTally>) -> int
    decreases tallies.len(),
{
    if tallies.len() == 0 {
        0
    } else {
        sum_tally_count(tallies.drop_last()) + tallies.last().count
    }
}

/// The trade count held by an accumulator, zero when none is open.
pub open spec fn acc_count(acc: ThrAcc) -> int {
    match acc {
        ThrAcc::Empty => 0,
        ThrAcc::Open(a) => a.count,
    }
}

/// The running facts behind the per-bar tally bounds: while a bar is open
/// its metric is still below the threshold, every flushed bar reached
/// the threshold but overshot it by less than its largest single
/// contribution, and the per-bar trade counts account for every trade
/// processed so far. For tick bars the metric is the trade count and each
/// contribution is one.
pub proof fn lemma_thr_run_tallies(kind: BarMetric, threshold: int, trades: Seq<Trade>, n: int)
    requires
        1 <= threshold,
        0 <= n <= trades.len(),
    ensures
        ({
            let st = thr_run(kind, threshold, trades, n);
            &&& st.bars.len() == st.tallies.len()
            &&& sum_tally_count(st.tallies) + acc_count(st.acc) == n
            &&& match st.acc {
                ThrAcc::Empty => true,
                ThrAcc::Open(a) => {
                    &&& 0 <= a.metric < threshold
                    &&& 0 <= a.max_one
                    &&& 1 <= a.count
                    &&& (kind == BarMetric::Tick ==> a.metric == a.count && a.max_one <= 1)
                },
            }
            &&& forall|i: int|
                0 <= i < st.tallies.len() ==> threshold <= #[trigger] st.tallies[i].metric
                    < threshold + st.tallies[i].max_one
            &&& (kind == BarMetric::Tick ==> forall|i: int|
                0 <= i < st.tallies.len() ==> #[trigger] st.tallies[i].count == threshold)
        }),
    decreases n,
{
    if n > 0 {
        lemma_thr_run_tallies(kind, threshold, trades, n - 1);
        lemma_metric_nonneg(kind, trades[n - 1]);
        let prev = thr_run(kind, threshold, trades, n - 1);
        let st = thr_run(kind, threshold, trades, n);
        if st.tallies.len() > prev.tallies.len() {
            assert(st.tallies.drop_last() =~= prev.tallies);
        }
    }
}

/// No trade is dropped or double-counted at the count level either: over a
/// whole trade sequence the per-bar trade counts — the trailing partial
/// bar's included — sum to the number of trades.
pub proof fn lemma_threshold_bars_count(kind: BarMetric, threshold: int, trades: Seq<Trade>)
    requires
        1 <= threshold,
    ensures
        sum_tally_count(threshold_bar_tallies(kind, threshold, trades)) == trades.len(),
{
    let n = trades.len() as int;
    lemma_thr_run_tallies(kind, threshold, trades, n);
    let st = thr_run(kind, threshold, trades, n);
    match st.acc {
        ThrAcc::Empty => {},
        ThrAcc::Open(a) => {
            assert(st.tallies.push(tally_of_acc(a)).drop_last() =~= st.tallies);
        },
    }
}

/// Every emitted bar except possibly the trailing partial one accumulated a
/// metric of at least the threshold and overshot it by less than the
/// largest single trade contribution inside the bar. For dollar bars this
/// is the dollar-value flush bound.
pub proof fn lemma_threshold_bar_tally_bounds(kind: BarMetric, threshold: int, trades: Seq<Trade>)
    requires
        1 <= threshold,
    ensures
        threshold_bar_tallies(kind, threshold, trades).len() == threshold_bars(
            kind,
            threshold,
            trades,
        ).len(),
        ({
            let tl = threshold_bar_tallies(kind, threshold, trades);
            forall|i: int|
                0 <= i < tl.len() ==> (threshold <= #[trigger] tl[i].metric < threshold
                    + tl[i].max_one) || (i == tl.len() - 1 && tl[i].metric < threshold)
        }),
{
    lemma_thr_run_tallies(kind, threshold, trades, trades.len() as int);
}

/// Every tick bar accounts for exactly `threshold` trades, except the
/// trailing partial bar, which accounts for fewer.
pub proof fn lemma_tick_bar_counts(threshold: int, trades: Seq<Trade>)
    requires
        1 <= threshold,
    ensures
        ({
            let tl = threshold_bar_tallies(BarMetric::Tick, threshold, trades);
            forall|i: int|
                0 <= i < tl.len() ==> #[trigger] tl[i].count == threshold || (i == tl.len() - 1
                    && tl[i].count < threshold)
        }),
{
    lemma_thr_run_tallies(BarMetric::Tick, threshold, trades, trades.len() as int);
}

/// The running facts behind the time ordering of emitted bars: under
/// sorted input every bar time is at most the open accumulator's anchor,
/// and both are at most the last processed trade's timestamp.
pub proof fn lemma_thr_run_times(kind: BarMetric, threshold: int, trades: Seq<Trade>, n: int)
    requires
        1 <= threshold,
        0 <= n <= trades.len(),
        timestamps_sorted(trades),
    ensures
        ({
            let st = thr_run(kind, threshold, trades, n);
            &&& forall|i: int, j: int|
                0 <= i <= j < st.bars.len() ==> #[trigger] st.bars[i].time
                    <= #[trigger] st.bars[j].time
            &&& match st.acc {
                ThrAcc::Empty => true,
                ThrAcc::Open(a) => forall|i: int|
                    0 <= i < st.bars.len() ==> #[trigger] st.bars[i].time <= a.anchor,
            }
            &&& n >= 1 ==> forall|i: int|
                0 <= i < st.bars.len() ==> #[trigger] st.bars[i].time <= trades[n - 1].timestamp
            &&& n >= 1 ==> match st.acc {
                ThrAcc::Empty => true,
                ThrAcc::Open(a) => a.anchor <= trades[n - 1].timestamp,
            }
        }),
    decreases n,
{
    if n > 0 {
        lemma_thr_run_times(kind, threshold, trades, n - 1);
    }
}

/// Bars come out in non-decreasing time order whenever the trades came in
/// non-decreasing timestamp order, the trailing partial bar included.
pub proof fn lemma_threshold_bars_times(kind: BarMetric, threshold: int, trades: Seq<Trade>)
    requires
        1 <= threshold,
        timestamps_sorted(trades),
    ensures
        ({
            let bars = threshold_bars(kind, threshold, trades);
            forall|i: int, j: int|
                0 <= i <= j < bars.len() ==> #[trigger] bars[i].time <= #[trigger] bars[j].time
        }),
{
    lemma_thr_run_times(kind, threshold, trades, trades.len() as int);
}

/// Dollar bars: a bar flushes once its cumulative price-times-amount
/// reaches `interval_dollar`.
pub fn compute_dollar_bars(trades: &Vec<Trade>, interval_dollar: u128) -> (bars: Vec<Bar>)
    requires
        1 <= interval_dollar,
        sum_amount(trades@) <= u64::MAX,
        sum_metric(BarMetric::Dollar, trades@) <= u128::MAX,
    ensures
        bars@ == threshold_bars(BarMetric::Dollar, interval_dollar as int, trades@),
{
    compute_threshold_bars(trades, BarMetric::Dollar, interval_dollar)
}

} // verus!
