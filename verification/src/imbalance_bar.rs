//! Imbalance bar samplers: a bar's boundary is not a fixed threshold but
//! the moment the running signed order-flow imbalance reaches an adaptively
//! re-estimated threshold — the product of the EWMA-smoothed expected
//! activity per bar and the EWMA-smoothed expected absolute imbalance
//! ratio. Two variants share the shape: the tick variant counts tick-rule
//! signs, the volume variant sums sign-weighted amounts. A fragment still
//! accumulating when the tape ends is discarded, not emitted.
//!
//! The EWMA state is held in fixed point: values are scaled by
//! `EWMA_SCALE`, and the decay factor is `EWMA_ALPHA_NUM / EWMA_ALPHA_DEN`.

use vstd::prelude::*;
use crate::base::{
    abs_int, lemma_sum_amount_nonneg, lemma_sum_amount_take_le, lemma_sum_amount_take_succ,
    sum_amount, sum_bar_volume, Bar, Trade,
};
use crate::ewma::{
    div_trunc, div_trunc_i128, ewma_step, ewma_step_signed, ewma_update, ewma_update_signed,
    lemma_div_below, lemma_div_trunc_bound, lemma_ewma_numerator_bound,
};
use crate::threshold_bar::{
    lemma_metric_nonneg, lemma_sum_metric_nonneg, lemma_sum_metric_take_le,
    lemma_sum_metric_take_succ, lemma_sum_metric_tick, lemma_sum_metric_volume, metric_of,
    sum_metric, BarMetric,
};
use crate::tick_rule::{lemma_sign_seq_range, lemma_sign_seq_unfold, sign_seq, spec_tick_sign, tick_rule_sign};

verus! {

/// Numerator of the EWMA decay factor (0.05 together with the denominator).
pub const EWMA_ALPHA_NUM: u128 = 1;

/// Denominator of the EWMA decay factor.
pub const EWMA_ALPHA_DEN: u128 = 20;

/// Fixed-point scale of the EWMA state: one unit is a millionth.
pub const EWMA_SCALE: u128 = 1_000_000;

/// Everything the smoothed expected activity stays below: one more than
/// the largest activity observation, scaled.
pub const EWMA_ACT_BOUND: u128 = 0x1_0000_0000_0000_0000 * 1_000_000;

/// The per-trade activity measure of an imbalance sampler.
#[derive(Clone, Copy, PartialEq, Eq, Structural, Debug)]
pub enum ImbalanceKind {
    /// One per trade: tick-imbalance bars.
    Tick,
    /// The trade's amount: volume-imbalance bars.
    Volume,
}

/// The threshold metric that measures the same quantity as this imbalance
/// kind's activity.
pub open spec fn activity_metric(kind: ImbalanceKind) -> BarMetric {
    match kind {
        ImbalanceKind::Tick => BarMetric::Tick,
        ImbalanceKind::Volume => BarMetric::Volume,
    }
}

/// The activity contribution of one trade: 1 for the tick variant, the
/// amount for the volume variant.
pub open spec fn activity_of(kind: ImbalanceKind, t: Trade) -> int {
    metric_of(activity_metric(kind), t)
}

/// The imbalance sampler state: emitted bars, the open bar's OHLCV, the
/// per-bar signed imbalance and activity, the tick-rule carry, and the two
/// EWMA estimates (scaled by `EWMA_SCALE`).
pub struct ImbState {
    pub bars: Seq<Bar>,
    pub bar_open: bool,
    pub open_px: u64,
    pub high_px: u64,
    pub low_px: u64,
    pub close_px: u64,
    pub volume: int,
    pub imbalance: int,
    pub activity: int,
    pub prev_price: u64,
    pub prev_sign: int,
    pub ewma_activity: int,
    pub ewma_ratio: int,
}

/// The state before any trade: the expected activity is seeded by the
/// caller, the expected absolute imbalance ratio at one half, and the
/// tick-rule carry at the first trade's price with sign +1.
pub open spec fn imb_init(trades: Seq<Trade>, seed: int) -> ImbState {
    ImbState {
        bars: Seq::empty(),
        bar_open: false,
        open_px: 0,
        high_px: 0,
        low_px: 0,
        close_px: 0,
        volume: 0,
        imbalance: 0,
        activity: 0,
        prev_price: if trades.len() > 0 {
            trades[0].price
        } else {
            0
        },
        prev_sign: 1,
        ewma_activity: seed,
        ewma_ratio: EWMA_SCALE as int / 2,
    }
}

/// The state `imb_step` works from when it has to open a new bar first.
pub open spec fn imb_step_opened(st: ImbState, t: Trade) -> ImbState {
    ImbState {
        bars: st.bars,
        bar_open: true,
        open_px: t.price,
        high_px: t.price,
        low_px: t.price,
        close_px: st.close_px,
        volume: 0,
        imbalance: st.imbalance,
        activity: 0,
        prev_price: st.prev_price,
        prev_sign: st.prev_sign,
        ewma_activity: st.ewma_activity,
        ewma_ratio: st.ewma_ratio,
    }
}

/// One step of the imbalance sampler: open a bar if none is open, classify
/// the trade by the tick rule, accumulate its signed contribution and its
/// activity, update the OHLCV, and flush once the absolute imbalance
/// reaches the threshold `ewma_activity * |ewma_ratio|` (the comparison is
/// exact: both sides are multiplied by the square of the scale). A flush
/// stamps the bar with the triggering trade's timestamp and feeds the
/// observed activity and observed imbalance ratio into the EWMA estimates.
pub open spec fn imb_step(kind: ImbalanceKind, st: ImbState, t: Trade) -> ImbState {
    let base_px = if !st.bar_open {
        imb_step_opened(st, t)
    } else {
        st
    };
    let sign = spec_tick_sign(t.price, st.prev_price, st.prev_sign);
    let act = activity_of(kind, t);
    let imb = base_px.imbalance + sign * act;
    let activity = base_px.activity + act;
    let high = if t.price > base_px.high_px {
        t.price
    } else {
        base_px.high_px
    };
    let low = if t.price < base_px.low_px {
        t.price
    } else {
        base_px.low_px
    };
    let vol = base_px.volume + t.amount;
    if abs_int(imb) * (EWMA_SCALE as int) * (EWMA_SCALE as int) >= st.ewma_activity * abs_int(
        st.ewma_ratio,
    ) {
        let obs_act = activity * (EWMA_SCALE as int);
        let obs_ratio = if activity > 0 {
            div_trunc(imb * (EWMA_SCALE as int), activity)
        } else {
            0
        };
        ImbState {
            bars: st.bars.push(
                Bar {
                    time: t.timestamp,
                    open: base_px.open_px,
                    high,
                    low,
                    close: t.price,
                    volume: vol as u64,
                },
            ),
            bar_open: false,
            open_px: base_px.open_px,
            high_px: high,
            low_px: low,
            close_px: t.price,
            volume: vol,
            imbalance: 0,
            activity,
            prev_price: t.price,
            prev_sign: sign,
            ewma_activity: ewma_step(
                st.ewma_activity,
                obs_act,
                EWMA_ALPHA_NUM as int,
                EWMA_ALPHA_DEN as int,
            ),
            ewma_ratio: ewma_step_signed(
                st.ewma_ratio,
                obs_ratio,
                EWMA_ALPHA_NUM as int,
                EWMA_ALPHA_DEN as int,
            ),
        }
    } else {
        ImbState {
            bars: st.bars,
            bar_open: true,
            open_px: base_px.open_px,
            high_px: high,
            low_px: low,
            close_px: t.price,
            volume: vol,
            imbalance: imb,
            activity,
            prev_price: t.price,
            prev_sign: sign,
            ewma_activity: st.ewma_activity,
            ewma_ratio: st.ewma_ratio,
        }
    }
}

/// The imbalance sampler state after the first `n` trades.
pub open spec fn imb_run(kind: ImbalanceKind, seed: int, trades: Seq<Trade>, n: int) -> ImbState
    decreases n,
{
    if n <= 0 {
        imb_init(trades, seed)
    } else {
        imb_step(kind, imb_run(kind, seed, trades, n - 1), trades[n - 1])
    }
}

/// The bars an imbalance sampler emits over a whole trade sequence. A
/// fragment still accumulating at the end of the tape is discarded.
pub open spec fn imbalance_bars(kind: ImbalanceKind, seed: int, trades: Seq<Trade>) -> Seq<Bar> {
    imb_run(kind, seed, trades, trades.len() as int).bars
}

/// The volume of the fragment the sampler discards at the end of the tape.
pub open spec fn imb_discarded_volume(kind: ImbalanceKind, seed: int, trades: Seq<Trade>) -> int {
    let st = imb_run(kind, seed, trades, trades.len() as int);
    if st.bar_open {
        st.volume
    } else {
        0
    }
}

/// The running invariant of the imbalance fold: volumes are conserved up
/// to the open fragment, the imbalance never outweighs the bar's activity,
/// and the EWMA estimates stay inside their fixed-point ranges.
#[verifier::rlimit(50)]
pub proof fn lemma_imb_run_invariant(kind: ImbalanceKind, seed: int, trades: Seq<Trade>, n: int)
    requires
        0 <= seed <= u64::MAX,
        0 <= n <= trades.len(),
        sum_amount(trades) <= u64::MAX,
        sum_metric(activity_metric(kind), trades) <= u64::MAX,
    ensures
        ({
            let st = imb_run(kind, seed, trades, n);
            &&& sum_bar_volume(st.bars) + (if st.bar_open {
                st.volume
            } else {
                0
            }) == sum_amount(trades.take(n))
            &&& 0 <= st.volume <= sum_amount(trades.take(n))
            &&& !st.bar_open ==> st.imbalance == 0
            &&& abs_int(st.imbalance) <= st.activity
            &&& 0 <= st.activity <= sum_metric(activity_metric(kind), trades.take(n))
            &&& (st.prev_sign == 1 || st.prev_sign == -1)
            &&& 0 <= st.ewma_activity < EWMA_ACT_BOUND
            &&& abs_int(st.ewma_ratio) <= EWMA_SCALE
        }),
    decreases n,
{
    let m = activity_metric(kind);
    if n > 0 {
        lemma_imb_run_invariant(kind, seed, trades, n - 1);
        lemma_sum_amount_take_succ(trades, n - 1);
        lemma_sum_amount_take_le(trades, n);
        lemma_sum_amount_nonneg(trades.take(n - 1));
        lemma_sum_metric_take_succ(m, trades, n - 1);
        lemma_sum_metric_take_le(m, trades, n);
        lemma_sum_metric_nonneg(m, trades.take(n - 1));
        lemma_metric_nonneg(m, trades[n - 1]);
        let t = trades[n - 1];
        let prev = imb_run(kind, seed, trades, n - 1);
        let st = imb_run(kind, seed, trades, n);
        assert(st == imb_step(kind, prev, t));
        let base_px = if !prev.bar_open {
            imb_step_opened(prev, t)
        } else {
            prev
        };
        let sign = spec_tick_sign(t.price, prev.prev_price, prev.prev_sign);
        let act = activity_of(kind, t);
        let imb = base_px.imbalance + sign * act;
        let activity = base_px.activity + act;
        let vol = base_px.volume + t.amount;
        assert(sign == 1 || sign == -1);
        assert(sign * act == act || sign * act == -act) by (nonlinear_arith)
            requires
                sign == 1 || sign == -1,
        ;
        assert(abs_int(imb) <= activity);
        assert(0 <= activity <= sum_metric(m, trades.take(n)));
        assert(0 <= vol <= sum_amount(trades.take(n)));
        if abs_int(imb) * (EWMA_SCALE as int) * (EWMA_SCALE as int) >= prev.ewma_activity
            * abs_int(prev.ewma_ratio) {
            let obs_act = activity * (EWMA_SCALE as int);
            let num_act = EWMA_ALPHA_NUM as int * obs_act + (EWMA_ALPHA_DEN as int
                - EWMA_ALPHA_NUM as int) * prev.ewma_activity;
            lemma_div_below(num_act, EWMA_ALPHA_DEN as int, EWMA_ACT_BOUND as int);
            let obs_ratio = if activity > 0 {
                div_trunc(imb * (EWMA_SCALE as int), activity)
            } else {
                0
            };
            if activity > 0 {
                assert(abs_int(imb * (EWMA_SCALE as int)) == abs_int(imb) * (EWMA_SCALE as int));
                assert(abs_int(imb) * (EWMA_SCALE as int) <= activity * (EWMA_SCALE as int));
                lemma_div_trunc_bound(imb * (EWMA_SCALE as int), activity, EWMA_SCALE as int);
            }
            lemma_ewma_numerator_bound(
                prev.ewma_ratio,
                obs_ratio,
                EWMA_ALPHA_NUM as int,
                EWMA_ALPHA_DEN as int,
                EWMA_SCALE as int,
            );
            let num_ratio = EWMA_ALPHA_NUM as int * obs_ratio + (EWMA_ALPHA_DEN as int
                - EWMA_ALPHA_NUM as int) * prev.ewma_ratio;
            lemma_div_trunc_bound(num_ratio, EWMA_ALPHA_DEN as int, EWMA_SCALE as int);
            let bar = Bar {
                time: t.timestamp,
                open: base_px.open_px,
                high: if t.price > base_px.high_px {
                    t.price
                } else {
                    base_px.high_px
                },
                low: if t.price < base_px.low_px {
                    t.price
                } else {
                    base_px.low_px
                },
                close: t.price,
                volume: vol as u64,
            };
            assert(st.bars == prev.bars.push(bar));
            assert(st.bars.drop_last() =~= prev.bars);
            assert(sum_bar_volume(st.bars) == sum_bar_volume(prev.bars) + vol);
            assert(!st.bar_open);
            assert(st.ewma_activity == num_act / (EWMA_ALPHA_DEN as int));
            assert(0 <= st.ewma_activity < EWMA_ACT_BOUND);
            assert(abs_int(st.ewma_ratio) <= EWMA_SCALE);
            assert(st.imbalance == 0);
            assert(st.activity == activity);
        } else {
            assert(st.bars == prev.bars);
            assert(st.bar_open);
            assert(st.volume == vol);
            assert(st.imbalance == imb);
            assert(st.activity == activity);
            assert(st.ewma_activity == prev.ewma_activity);
            assert(st.ewma_ratio == prev.ewma_ratio);
        }
    }
}

/// No trade is counted twice and none is invented: the volumes of the
/// emitted imbalance bars plus the discarded trailing fragment sum to the
/// total traded amount, so the bar volumes alone never exceed it.
pub proof fn lemma_imbalance_bars_volume(kind: ImbalanceKind, seed: int, trades: Seq<Trade>)
    requires
        0 <= seed <= u64::MAX,
        sum_amount(trades) <= u64::MAX,
        sum_metric(activity_metric(kind), trades) <= u64::MAX,
    ensures
        sum_bar_volume(imbalance_bars(kind, seed, trades)) + imb_discarded_volume(
            kind,
            seed,
            trades,
        ) == sum_amount(trades),
        0 <= imb_discarded_volume(kind, seed, trades),
        sum_bar_volume(imbalance_bars(kind, seed, trades)) <= sum_amount(trades),
{
    let n = trades.len() as int;
    lemma_imb_run_invariant(kind, seed, trades, n);
    assert(trades.take(n) =~= trades);
}

/// The prices of a trade sequence, in order.
pub open spec fn trade_prices(trades: Seq<Trade>) -> Seq<u64> {
    trades.map_values(|t: Trade| t.price)
}

/// The sampler classifies trades exactly as the tick-rule classifier does:
/// after `n` trades its carried price is the last trade's price and its
/// carried sign is the `n`-th tick-rule sign of the price sequence.
pub proof fn lemma_imb_run_tick_rule(kind: ImbalanceKind, seed: int, trades: Seq<Trade>, n: int)
    requires
        0 <= n <= trades.len(),
    ensures
        imb_run(kind, seed, trades, n).prev_price == if n == 0 {
            imb_init(trades, seed).prev_price
        } else {
            trades[n - 1].price
        },
        imb_run(kind, seed, trades, n).prev_sign == if n == 0 {
            1
        } else {
            sign_seq(trade_prices(trades))[n - 1]
        },
    decreases n,
{
    let prices = trade_prices(trades);
    lemma_sign_seq_range(prices);
    if n == 1 {
        assert(prices[0] == trades[0].price);
        assert(sign_seq(prices)[0] == 1);
        assert(imb_run(kind, seed, trades, 1).prev_sign == spec_tick_sign(
            trades[0].price,
            trades[0].price,
            1,
        ));
    } else if n > 1 {
        lemma_imb_run_tick_rule(kind, seed, trades, n - 1);
        lemma_sign_seq_unfold(prices, n - 1);
        assert(prices[n - 1] == trades[n - 1].price);
        assert(prices[n - 2] == trades[n - 2].price);
    }
}

/// The fold state depends only on the trades already processed: running
/// `n` steps over a prefix equals running them over the whole sequence.
pub proof fn lemma_imb_run_prefix_agree(
    kind: ImbalanceKind,
    seed: int,
    trades: Seq<Trade>,
    m: int,
    n: int,
)
    requires
        0 <= n <= m <= trades.len(),
        1 <= m,
    ensures
        imb_run(kind, seed, trades.take(m), n) == imb_run(kind, seed, trades, n),
    decreases n,
{
    if n == 0 {
        assert(trades.take(m)[0] == trades[0]);
    } else {
        lemma_imb_run_prefix_agree(kind, seed, trades, m, n - 1);
        assert(trades.take(m)[n - 1] == trades[n - 1]);
    }
}

/// Bars only accumulate as the fold advances: the bars after `n` steps are
/// a prefix of the bars after any later step.
pub proof fn lemma_imb_run_bars_monotone(
    kind: ImbalanceKind,
    seed: int,
    trades: Seq<Trade>,
    n: int,
    n2: int,
)
    requires
        0 <= n <= n2 <= trades.len(),
    ensures
        imb_run(kind, seed, trades, n).bars.is_prefix_of(imb_run(kind, seed, trades, n2).bars),
    decreases n2 - n,
{
    if n < n2 {
        lemma_imb_run_bars_monotone(kind, seed, trades, n, n2 - 1);
    }
}

/// The sampler is causal: truncating the tape never changes the bars that
/// were already emitted — the bars of a prefix of the trades are a prefix
/// of the bars of the whole tape.
pub proof fn lemma_imbalance_bars_prefix_stable(
    kind: ImbalanceKind,
    seed: int,
    trades: Seq<Trade>,
    m: int,
)
    requires
        0 <= m <= trades.len(),
    ensures
        imbalance_bars(kind, seed, trades.take(m)).is_prefix_of(
            imbalance_bars(kind, seed, trades),
        ),
{
    if m == 0 {
        assert(imbalance_bars(kind, seed, trades.take(0)).len() == 0);
        assert(imbalance_bars(kind, seed, trades.take(0)).is_prefix_of(
            imbalance_bars(kind, seed, trades),
        ));
    } else {
        lemma_imb_run_prefix_agree(kind, seed, trades, m, m);
        lemma_imb_run_bars_monotone(kind, seed, trades, m, trades.len() as int);
    }
}

/// The exec-side sampler fields agree with the spec state.
spec fn imb_matches(
    st: ImbState,
    bar_open: bool,
    open_px: u64,
    high_px: u64,
    low_px: u64,
    close_px: u64,
    volume: u64,
    imbalance: i128,
    activity: u128,
    prev_price: u64,
    prev_sign: i64,
    ewma_activity: u128,
    ewma_ratio: i128,
) -> bool {
    &&& st.bar_open == bar_open
    &&& st.open_px == open_px
    &&& st.high_px == high_px
    &&& st.low_px == low_px
    &&& st.close_px == close_px
    &&& st.volume == volume as int
    &&& st.imbalance == imbalance as int
    &&& st.activity == activity as int
    &&& st.prev_price == prev_price
    &&& st.prev_sign == prev_sign as int
    &&& st.ewma_activity == ewma_activity as int
    &&& st.ewma_ratio == ewma_ratio as int
}

/// Fold a trade sequence into imbalance bars of the given kind.
///
/// `initial_expected_activity` seeds the smoothed expected activity per
/// bar — a trade count for the tick variant, an amount for the volume
/// variant — in `EWMA_SCALE` units (millionths).
#[verifier::rlimit(100)]
pub fn compute_imbalance_bars(
    trades: &Vec<Trade>,
    kind: ImbalanceKind,
    initial_expected_activity: u64,
) -> (bars: Vec<Bar>)
    requires
        sum_amount(trades@) <= u64::MAX,
    ensures
        bars@ == imbalance_bars(kind, initial_expected_activity as int, trades@),
{
    let ghost seed: int = initial_expected_activity as int;
    let mut bars: Vec<Bar> = Vec::new();
    let n = trades.len();
    if n == 0 {
        return bars;
    }
    proof {
        match kind {
            ImbalanceKind::Tick => lemma_sum_metric_tick(trades@),
            ImbalanceKind::Volume => lemma_sum_metric_volume(trades@),
        }
    }
    let mut bar_open: bool = false;
    let mut open_px: u64 = 0;
    let mut high_px: u64 = 0;
    let mut low_px: u64 = 0;
    let mut close_px: u64 = 0;
    let mut volume: u64 = 0;
    let mut imbalance: i128 = 0;
    let mut activity: u128 = 0;
    let mut prev_price: u64 = trades[0].price;
    let mut prev_sign: i64 = 1;
    let mut ewma_activity: u128 = initial_expected_activity as u128;
    let mut ewma_ratio: i128 = (EWMA_SCALE / 2) as i128;
    let mut i: usize = 0;
    while i < n
        invariant
            n == trades@.len(),
            1 <= n,
            0 <= i <= n,
            seed == initial_expected_activity as int,
            sum_amount(trades@) <= u64::MAX,
            sum_metric(activity_metric(kind), trades@) <= u64::MAX,
            bars@ == imb_run(kind, seed, trades@, i as int).bars,
            imb_matches(
                imb_run(kind, seed, trades@, i as int),
                bar_open,
                open_px,
                high_px,
                low_px,
                close_px,
                volume,
                imbalance,
                activity,
                prev_price,
                prev_sign,
                ewma_activity,
                ewma_ratio,
            ),
        decreases n - i,
    {
        let t = trades[i];
        proof {
            lemma_imb_run_invariant(kind, seed, trades@, i as int);
            lemma_sum_amount_take_succ(trades@, i as int);
            lemma_sum_amount_take_le(trades@, i as int + 1);
            lemma_sum_amount_nonneg(trades@.take(i as int));
            lemma_sum_metric_take_succ(activity_metric(kind), trades@, i as int);
            lemma_sum_metric_take_le(activity_metric(kind), trades@, i as int + 1);
            lemma_sum_metric_nonneg(activity_metric(kind), trades@.take(i as int));
            lemma_metric_nonneg(activity_metric(kind), t);
        }
        if !bar_open {
            open_px = t.price;
            high_px = t.price;
            low_px = t.price;
            volume = 0;
            activity = 0;
            bar_open = true;
        }
        let sign = tick_rule_sign(t.price, prev_price, prev_sign);
        prev_price = t.price;
        prev_sign = sign;
        let act: u128 = match kind {
            ImbalanceKind::Tick => 1,
            ImbalanceKind::Volume => t.amount as u128,
        };
        let signed_act: i128 = if sign == 1 {
            act as i128
        } else {
            -(act as i128)
        };
        proof {
            assert((sign as int) * (act as int) == signed_act as int) by (nonlinear_arith)
                requires
                    sign == 1 || sign == -1,
                    sign == 1 ==> signed_act == act,
                    sign == -1 ==> signed_act == -(act as int),
            ;
        }
        imbalance = imbalance + signed_act;
        activity = activity + act;
        if t.price > high_px {
            high_px = t.price;
        }
        if t.price < low_px {
            low_px = t.price;
        }
        close_px = t.price;
        volume = volume + t.amount;
        let imb_abs: u128 = if imbalance >= 0 {
            imbalance as u128
        } else {
            (-imbalance) as u128
        };
        let ratio_abs: u128 = if ewma_ratio >= 0 {
            ewma_ratio as u128
        } else {
            (-ewma_ratio) as u128
        };
        proof {
            assert(ewma_activity * ratio_abs <= (EWMA_ACT_BOUND as int) * (EWMA_SCALE as int))
                by (nonlinear_arith)
                requires
                    0 <= ewma_activity < EWMA_ACT_BOUND,
                    0 <= ratio_abs <= EWMA_SCALE,
            ;
        }
        if imb_abs * EWMA_SCALE * EWMA_SCALE >= ewma_activity * ratio_abs {
            bars.push(
                Bar {
                    time: t.timestamp,
                    open: open_px,
                    high: high_px,
                    low: low_px,
                    close: close_px,
                    volume,
                },
            );
            let obs_act: u128 = activity * EWMA_SCALE;
            ewma_activity = ewma_update(ewma_activity, obs_act, EWMA_ALPHA_NUM, EWMA_ALPHA_DEN);
            let obs_ratio: i128 = if activity > 0 {
                proof {
                    assert(abs_int(imbalance as int * (EWMA_SCALE as int)) <= (activity as int) * (
                    EWMA_SCALE as int)) by (nonlinear_arith)
                        requires
                            abs_int(imbalance as int) <= activity as int,
                    ;
                    lemma_div_trunc_bound(
                        imbalance as int * (EWMA_SCALE as int),
                        activity as int,
                        EWMA_SCALE as int,
                    );
                }
                div_trunc_i128(imbalance * (EWMA_SCALE as i128), activity as i128)
            } else {
                0
            };
            ewma_ratio = ewma_update_signed(
                ewma_ratio,
                obs_ratio,
                EWMA_ALPHA_NUM as i128,
                EWMA_ALPHA_DEN as i128,
            );
            imbalance = 0;
            bar_open = false;
        }
        i = i + 1;
    }
    proof {
        assert(trades@.take(n as int) =~= trades@);
    }
    bars
}

/// Tick-imbalance bars: the signed contribution of each trade is its
/// tick-rule sign, the activity its count of one. The seed is the expected
/// trade count per bar in `EWMA_SCALE` units.
pub fn compute_tick_imbalance_bars(trades: &Vec<Trade>, initial_expected_ticks: u64) -> (bars:
    Vec<Bar>)
    requires
        sum_amount(trades@) <= u64::MAX,
    ensures
        bars@ == imbalance_bars(ImbalanceKind::Tick, initial_expected_ticks as int, trades@),
{
    compute_imbalance_bars(trades, ImbalanceKind::Tick, initial_expected_ticks)
}

/// Volume-imbalance bars: the signed contribution of each trade is its
/// tick-rule sign times its amount, the activity its amount. The seed is
/// the expected volume per bar in `EWMA_SCALE` units.
pub fn compute_volume_imbalance_bars(trades: &Vec<Trade>, initial_expected_volume: u64) -> (bars:
    Vec<Bar>)
    requires
        sum_amount(trades@) <= u64::MAX,
    ensures
        bars@ == imbalance_bars(ImbalanceKind::Volume, initial_expected_volume as int, trades@),
{
    compute_imbalance_bars(trades, ImbalanceKind::Volume, initial_expected_volume)
}

} // verus!
