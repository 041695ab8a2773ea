//! Symmetric CUSUM event detection on a bar series. Two running sums over
//! the bar-to-bar returns — a non-negative one and a non-positive one —
//! each fire an event and reset to zero when they reach the threshold; the
//! positive side is checked first, so a bar never emits two events.
//!
//! The returns are supplied by the caller as scaled integers, one per
//! consecutive bar pair: callers that want log returns compute
//! `ln(close_t / close_{t-1})` in a fixed-point unit of their choice, with
//! a non-positive previous close mapped to a return of zero. The threshold
//! is in the same unit.

use vstd::prelude::*;
use crate::base::Bar;

verus! {

/// The filter state: emitted events as `(time, close)` pairs, the
/// non-negative upward sum and the non-positive downward sum.
pub struct CusumState {
    pub events: Seq<(u64, u64)>,
    pub s_pos: int,
    pub s_neg: int,
}

/// One step of the filter on the bar that closes a pair with return `r`:
/// both sums absorb `r` and clamp at zero; if the upward sum reaches `h`
/// an event fires at the bar and that sum resets, else if the downward sum
/// reaches `-h` an event fires and that sum resets.
pub open spec fn cusum_step(h: int, st: CusumState, bar: Bar, r: int) -> CusumState {
    let sp = if st.s_pos + r > 0 {
        st.s_pos + r
    } else {
        0
    };
    let sn = if st.s_neg + r < 0 {
        st.s_neg + r
    } else {
        0
    };
    if sp >= h {
        CusumState { events: st.events.push((bar.time, bar.close)), s_pos: 0, s_neg: sn }
    } else if sn <= -h {
        CusumState { events: st.events.push((bar.time, bar.close)), s_pos: sp, s_neg: 0 }
    } else {
        CusumState { events: st.events, s_pos: sp, s_neg: sn }
    }
}

/// The filter state after the first `n` bars; `rets[k - 1]` is the return
/// of the pair closed by bar `k`, so the first bar contributes nothing.
pub open spec fn cusum_run(h: int, bars: Seq<Bar>, rets: Seq<i64>, n: int) -> CusumState
    decreases n,
{
    if n <= 1 {
        CusumState { events: Seq::empty(), s_pos: 0, s_neg: 0 }
    } else {
        cusum_step(h, cusum_run(h, bars, rets, n - 1), bars[n - 1], rets[n - 2] as int)
    }
}

/// The events the filter emits over a whole bar series.
pub open spec fn cusum_events(h: int, bars: Seq<Bar>, rets: Seq<i64>) -> Seq<(u64, u64)> {
    cusum_run(h, bars, rets, bars.len() as int).events
}

/// Sum of the first `k` returns.
pub open spec fn ret_prefix_sum(rets: Seq<i64>, k: int) -> int
    decreases k,
{
    if k <= 0 {
        0
    } else {
        ret_prefix_sum(rets, k - 1) + rets[k - 1] as int
    }
}

/// Detect CUSUM events on a bar series.
///
/// `rets` holds one scaled return per consecutive bar pair, so it is one
/// shorter than `bars` (and empty when `bars` is). The result lists, in
/// order, the `(time, close)` of every bar at which either running sum
/// crossed the threshold `h`.
pub fn compute_cusum_events(bars: &Vec<Bar>, rets: &Vec<i64>, h: i64) -> (events: Vec<
    (u64, u64),
>)
    requires
        bars@.len() == 0 ==> rets@.len() == 0,
        bars@.len() >= 1 ==> rets@.len() == bars@.len() - 1,
    ensures
        events@ == cusum_events(h as int, bars@, rets@),
{
    let mut events: Vec<(u64, u64)> = Vec::new();
    let n = bars.len();
    if n == 0 {
        return events;
    }
    let mut s_pos: i128 = 0;
    let mut s_neg: i128 = 0;
    let mut i: usize = 1;
    while i < n
        invariant
            n == bars@.len(),
            1 <= n,
            rets@.len() == n - 1,
            1 <= i <= n,
            events@ == cusum_run(h as int, bars@, rets@, i as int).events,
            s_pos as int == cusum_run(h as int, bars@, rets@, i as int).s_pos,
            s_neg as int == cusum_run(h as int, bars@, rets@, i as int).s_neg,
            0 <= s_pos <= (i - 1) * (i64::MAX as int),
            (i - 1) * (i64::MIN as int) <= s_neg <= 0,
        decreases n - i,
    {
        let r = rets[i - 1];
        let up = s_pos + (r as i128);
        let down = s_neg + (r as i128);
        s_pos = if up > 0 {
            up
        } else {
            0
        };
        s_neg = if down < 0 {
            down
        } else {
            0
        };
        if s_pos >= h as i128 {
            events.push((bars[i].time, bars[i].close));
            s_pos = 0;
        } else if s_neg <= -(h as i128) {
            events.push((bars[i].time, bars[i].close));
            s_neg = 0;
        }
        i = i + 1;
    }
    events
}

/// On a flat series — every return zero — the filter emits no event and
/// both sums end at zero.
pub proof fn lemma_cusum_flat(h: int, bars: Seq<Bar>, rets: Seq<i64>, n: int)
    requires
        1 <= h,
        rets.len() + 1 == bars.len() || (bars.len() == 0 && rets.len() == 0),
        0 <= n <= bars.len(),
        forall|k: int| 0 <= k < rets.len() ==> rets[k] == 0,
    ensures
        cusum_run(h, bars, rets, n).events.len() == 0,
        cusum_run(h, bars, rets, n).s_pos == 0,
        cusum_run(h, bars, rets, n).s_neg == 0,
    decreases n,
{
    if n > 1 {
        lemma_cusum_flat(h, bars, rets, n - 1);
    }
}

/// On a flat series the whole event list is empty.
pub proof fn lemma_cusum_events_flat(h: int, bars: Seq<Bar>, rets: Seq<i64>)
    requires
        1 <= h,
        rets.len() + 1 == bars.len() || (bars.len() == 0 && rets.len() == 0),
        forall|k: int| 0 <= k < rets.len() ==> rets[k] == 0,
    ensures
        cusum_events(h, bars, rets).len() == 0,
{
    lemma_cusum_flat(h, bars, rets, bars.len() as int);
}

/// Prefix sums of non-negative returns are non-negative and monotone.
pub proof fn lemma_ret_prefix_sum_monotone(rets: Seq<i64>, a: int, b: int)
    requires
        forall|k: int| 0 <= k < rets.len() ==> rets[k] >= 0,
        0 <= a <= b <= rets.len(),
    ensures
        0 <= ret_prefix_sum(rets, a) <= ret_prefix_sum(rets, b),
    decreases b,
{
    if a < b {
        lemma_ret_prefix_sum_monotone(rets, a, b - 1);
    } else if a > 0 {
        lemma_ret_prefix_sum_monotone(rets, a - 1, a - 1);
    }
}

/// Before the crossing, a rising series just accumulates: no event, the
/// upward sum is the prefix sum, the downward sum pinned at zero.
proof fn lemma_cusum_rising_before(h: int, bars: Seq<Bar>, rets: Seq<i64>, j: int, k: int)
    requires
        1 <= h,
        rets.len() + 1 == bars.len(),
        forall|i: int| 0 <= i < rets.len() ==> rets[i] >= 0,
        1 <= j <= rets.len(),
        ret_prefix_sum(rets, j - 1) < h,
        0 <= k <= j - 1,
    ensures
        cusum_run(h, bars, rets, k + 1).events.len() == 0,
        cusum_run(h, bars, rets, k + 1).s_pos == ret_prefix_sum(rets, k),
        cusum_run(h, bars, rets, k + 1).s_neg == 0,
    decreases k,
{
    if k > 0 {
        lemma_cusum_rising_before(h, bars, rets, j, k - 1);
        lemma_ret_prefix_sum_monotone(rets, k - 1, k);
        lemma_ret_prefix_sum_monotone(rets, k, j - 1);
    }
}

/// From the crossing on, a rising series whose tail stays below the
/// threshold holds exactly the one event and accumulates the tail.
proof fn lemma_cusum_rising_after(h: int, bars: Seq<Bar>, rets: Seq<i64>, j: int, k: int)
    requires
        1 <= h,
        rets.len() + 1 == bars.len(),
        forall|i: int| 0 <= i < rets.len() ==> rets[i] >= 0,
        1 <= j <= rets.len(),
        ret_prefix_sum(rets, j) >= h,
        ret_prefix_sum(rets, j - 1) < h,
        ret_prefix_sum(rets, rets.len() as int) - ret_prefix_sum(rets, j) < h,
        j <= k <= rets.len(),
    ensures
        cusum_run(h, bars, rets, k + 1).events =~= seq![(bars[j].time, bars[j].close)],
        cusum_run(h, bars, rets, k + 1).s_pos == ret_prefix_sum(rets, k) - ret_prefix_sum(
            rets,
            j,
        ),
        cusum_run(h, bars, rets, k + 1).s_neg == 0,
    decreases k,
{
    if k == j {
        lemma_cusum_rising_before(h, bars, rets, j, j - 1);
        lemma_ret_prefix_sum_monotone(rets, j - 1, j);
    } else {
        lemma_cusum_rising_after(h, bars, rets, j, k - 1);
        lemma_ret_prefix_sum_monotone(rets, k - 1, k);
        lemma_ret_prefix_sum_monotone(rets, j, k - 1);
        lemma_ret_prefix_sum_monotone(rets, k, rets.len() as int);
    }
}

/// On a rising series — all returns non-negative — whose prefix sum first
/// reaches the threshold at pair `j` and whose remaining returns sum to
/// less than the threshold, exactly one event fires, at bar `j`, and both
/// running sums are zero immediately after that bar.
pub proof fn lemma_cusum_single_crossing(h: int, bars: Seq<Bar>, rets: Seq<i64>, j: int)
    requires
        1 <= h,
        rets.len() + 1 == bars.len(),
        forall|i: int| 0 <= i < rets.len() ==> rets[i] >= 0,
        1 <= j <= rets.len(),
        ret_prefix_sum(rets, j) >= h,
        ret_prefix_sum(rets, j - 1) < h,
        ret_prefix_sum(rets, rets.len() as int) - ret_prefix_sum(rets, j) < h,
    ensures
        cusum_events(h, bars, rets) =~= seq![(bars[j].time, bars[j].close)],
        cusum_run(h, bars, rets, j + 1).s_pos == 0,
        cusum_run(h, bars, rets, j + 1).s_neg == 0,
{
    lemma_cusum_rising_after(h, bars, rets, j, rets.len() as int);
    lemma_cusum_rising_after(h, bars, rets, j, j);
}

} // verus!
