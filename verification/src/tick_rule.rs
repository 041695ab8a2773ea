//! The tick rule: each trade is assigned a directional sign from the change
//! of its price against the previous trade, carrying the previous sign
//! forward on an unchanged price. The sign before any trade is +1.

use vstd::prelude::*;

verus! {

/// The sign of a trade under the tick rule, given the previous trade's price
/// and sign: +1 on a price increase, -1 on a decrease, the previous sign on
/// an unchanged price.
pub open spec fn spec_tick_sign(price: u64, prev_price: u64, prev_sign: int) -> int {
    if price > prev_price {
        1
    } else if price < prev_price {
        -1
    } else {
        prev_sign
    }
}

/// The tick-rule signs of a whole price sequence, one per price.
///
/// The first price is compared against itself with a previous sign of +1, so
/// the first sign is always +1.
pub open spec fn sign_seq(prices: Seq<u64>) -> Seq<int>
    decreases prices.len(),
{
    if prices.len() == 0 {
        Seq::empty()
    } else if prices.len() == 1 {
        seq![spec_tick_sign(prices[0], prices[0], 1)]
    } else {
        let init = sign_seq(prices.drop_last());
        init.push(
            spec_tick_sign(prices.last(), prices[prices.len() - 2], init.last()),
        )
    }
}

/// Classify one trade by the tick rule.
///
/// Callers own the previous-price / previous-sign state; before the first
/// trade they pass the trade's own price and a previous sign of +1.
pub fn tick_rule_sign(price: u64, prev_price: u64, prev_sign: i64) -> (sign: i64)
    requires
        prev_sign == 1 || prev_sign == -1,
    ensures
        sign == spec_tick_sign(price, prev_price, prev_sign as int),
        sign == 1 || sign == -1,
{
    if price > prev_price {
        1
    } else if price < prev_price {
        -1
    } else {
        prev_sign
    }
}

/// Every tick-rule sign is +1 or -1, and the first is +1.
pub proof fn lemma_sign_seq_range(prices: Seq<u64>)
    ensures
        sign_seq(prices).len() == prices.len(),
        forall|i: int|
            0 <= i < prices.len() ==> sign_seq(prices)[i] == 1 || sign_seq(prices)[i] == -1,
        prices.len() > 0 ==> sign_seq(prices)[0] == 1,
    decreases prices.len(),
{
    if prices.len() > 1 {
        lemma_sign_seq_range(prices.drop_last());
    }
}

/// A sign depends only on the prices up to it: on a longer sequence with the
/// same prefix, the signs of the prefix are unchanged.
pub proof fn lemma_sign_seq_prefix(prices: Seq<u64>, n: int)
    requires
        0 <= n <= prices.len(),
    ensures
        sign_seq(prices.take(n)) =~= sign_seq(prices).take(n),
    decreases prices.len() - n,
{
    lemma_sign_seq_range(prices);
    lemma_sign_seq_range(prices.take(n));
    if n == prices.len() {
        assert(prices.take(n) =~= prices);
    } else {
        lemma_sign_seq_prefix(prices, n + 1);
        let longer = prices.take(n + 1);
        assert(longer.drop_last() =~= prices.take(n));
        assert(sign_seq(prices.take(n)) =~= sign_seq(longer).take(n));
    }
}

/// A sign after the first unfolds one step of the rule: it classifies its
/// own price against the previous price and the previous sign.
pub proof fn lemma_sign_seq_unfold(prices: Seq<u64>, j: int)
    requires
        1 <= j < prices.len(),
    ensures
        sign_seq(prices)[j] == spec_tick_sign(prices[j], prices[j - 1], sign_seq(prices)[j - 1]),
{
    lemma_sign_seq_prefix(prices, j + 1);
    lemma_sign_seq_prefix(prices, j);
    lemma_sign_seq_range(prices);
    lemma_sign_seq_range(prices.take(j));
    let pre = prices.take(j + 1);
    assert(pre.drop_last() =~= prices.take(j));
    assert(pre.len() == j + 1 >= 2);
    assert(pre.last() == prices[j]);
    assert(pre[pre.len() - 2] == prices[j - 1]);
    assert(sign_seq(pre) == sign_seq(pre.drop_last()).push(
        spec_tick_sign(pre.last(), pre[pre.len() - 2], sign_seq(pre.drop_last()).last()),
    ));
    assert(sign_seq(prices.take(j)).last() == sign_seq(prices.take(j))[j - 1]);
    assert(sign_seq(prices.take(j))[j - 1] == sign_seq(prices)[j - 1]);
    assert(sign_seq(pre)[j] == spec_tick_sign(
        prices[j],
        prices[j - 1],
        sign_seq(prices)[j - 1],
    ));
    assert(sign_seq(pre)[j] == sign_seq(prices)[j]);
}

/// The zero-tick rule preserves signs across a flat stretch: if the prices
/// from `i` through `j` are all equal, the sign at `j` equals the sign at
/// `i`.
pub proof fn lemma_sign_seq_flat(prices: Seq<u64>, i: int, j: int)
    requires
        0 <= i <= j < prices.len(),
        forall|k: int| i <= k <= j ==> prices[k] == prices[i],
    ensures
        sign_seq(prices)[j] == sign_seq(prices)[i],
    decreases j - i,
{
    if j > i {
        lemma_sign_seq_flat(prices, i, j - 1);
        lemma_sign_seq_unfold(prices, j);
    }
}

} // verus!
