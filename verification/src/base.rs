//! The trade and bar record types shared by every sampler, together with the
//! summation spec functions that the samplers' contracts are stated over.

use vstd::prelude::*;

verus! {

/// A single trade tick.
///
/// Prices and amounts are fixed-point integers in units chosen by the caller
/// (for example, a price in hundredths and an amount in satoshi); every
/// sampler is unit-agnostic. The timestamp is in microseconds since the
/// epoch. Trades are expected in non-decreasing timestamp order; the samplers
/// do not validate the order, and the ordering-dependent lemmas state it as a
/// hypothesis.
#[derive(Clone, Copy, PartialEq, Eq, Structural, Debug)]
pub struct Trade {
    pub timestamp: u64,
    pub price: u64,
    pub amount: u64,
}

/// An OHLCV bar produced by a sampler.
///
/// `time` is in microseconds since the epoch; its meaning varies by sampler:
/// the bucket start for time bars, the first trade's timestamp for tick,
/// volume and dollar bars, and the flush-triggering trade's timestamp for
/// imbalance bars. `volume` is the sum of the amounts of the trades folded
/// into the bar.
#[derive(Clone, Copy, PartialEq, Eq, Structural, Debug)]
pub struct Bar {
    pub time: u64,
    pub open: u64,
    pub high: u64,
    pub low: u64,
    pub close: u64,
    pub volume: u64,
}

/// The absolute value of a mathematical integer.
pub open spec fn abs_int(a: int) -> int {
    if a >= 0 {
        a
    } else {
        -a
    }
}

/// Sum of the trade amounts of a sequence.
pub open spec fn sum_amount(trades: Seq<Trade>) -> int
    decreases trades.len(),
{
    if trades.len() == 0 {
        0
    } else {
        sum_amount(trades.drop_last()) + trades.last().amount
    }
}

/// Sum of the `volume` fields of a bar sequence.
pub open spec fn sum_bar_volume(bars: Seq<Bar>) -> int
    decreases bars.len(),
{
    if bars.len() == 0 {
        0
    } else {
        sum_bar_volume(bars.drop_last()) + bars.last().volume
    }
}

/// The trades arrive in non-decreasing timestamp order.
pub open spec fn timestamps_sorted(trades: Seq<Trade>) -> bool {
    forall|i: int, j: int|
        0 <= i <= j < trades.len() ==> trades[i].timestamp <= trades[j].timestamp
}

/// Extending a prefix by one trade adds that trade's amount.
pub proof fn lemma_sum_amount_take_succ(trades: Seq<Trade>, i: int)
    requires
        0 <= i < trades.len(),
    ensures
        sum_amount(trades.take(i + 1)) == sum_amount(trades.take(i)) + trades[i].amount,
{
    assert(trades.take(i + 1).drop_last() =~= trades.take(i));
}

/// An amount sum is non-negative.
pub proof fn lemma_sum_amount_nonneg(trades: Seq<Trade>)
    ensures
        sum_amount(trades) >= 0,
    decreases trades.len(),
{
    if trades.len() > 0 {
        lemma_sum_amount_nonneg(trades.drop_last());
    }
}

/// A prefix never sums to more than the whole sequence.
pub proof fn lemma_sum_amount_take_le(trades: Seq<Trade>, i: int)
    requires
        0 <= i <= trades.len(),
    ensures
        sum_amount(trades.take(i)) <= sum_amount(trades),
    decreases trades.len() - i,
{
    if i == trades.len() {
        assert(trades.take(i) =~= trades);
    } else {
        lemma_sum_amount_take_succ(trades, i);
        lemma_sum_amount_take_le(trades, i + 1);
    }
}

} // verus!
