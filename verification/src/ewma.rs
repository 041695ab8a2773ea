//! Exponentially weighted moving average over fixed-point integers.
//!
//! The decay factor `alpha` is a rational `alpha_num / alpha_den`; the
//! update of a smoothed value `e` by an observation `x` is
//! `alpha * x + (1 - alpha) * e`, computed exactly over the integers with
//! the division as the last step. State ownership lives in the caller: the
//! update is a pure function.

use vstd::prelude::*;
use crate::base::abs_int;

verus! {

/// Integer division truncating toward zero, for a positive divisor.
pub open spec fn div_trunc(a: int, b: int) -> int {
    if a >= 0 {
        a / b
    } else {
        -((-a) / b)
    }
}

/// The smoothed value after one EWMA step on non-negative values:
/// `alpha * x + (1 - alpha) * e` with `alpha = alpha_num / alpha_den`,
/// rounded down.
pub open spec fn ewma_step(e: int, x: int, alpha_num: int, alpha_den: int) -> int {
    (alpha_num * x + (alpha_den - alpha_num) * e) / alpha_den
}

/// The smoothed value after one EWMA step on signed values, rounded toward
/// zero.
pub open spec fn ewma_step_signed(e: int, x: int, alpha_num: int, alpha_den: int) -> int {
    div_trunc(alpha_num * x + (alpha_den - alpha_num) * e, alpha_den)
}

/// One EWMA update of a non-negative fixed-point value.
pub fn ewma_update(e: u128, x: u128, alpha_num: u128, alpha_den: u128) -> (r: u128)
    requires
        1 <= alpha_den,
        alpha_num <= alpha_den,
        alpha_num * x + (alpha_den - alpha_num) * e <= u128::MAX,
    ensures
        r == ewma_step(e as int, x as int, alpha_num as int, alpha_den as int),
{
    (alpha_num * x + (alpha_den - alpha_num) * e) / alpha_den
}

/// One EWMA update of a signed fixed-point value, as for an imbalance ratio.
pub fn ewma_update_signed(e: i128, x: i128, alpha_num: i128, alpha_den: i128) -> (r: i128)
    requires
        1 <= alpha_den,
        0 <= alpha_num <= alpha_den,
        alpha_den * abs_int(x as int) <= i128::MAX,
        alpha_den * abs_int(e as int) <= i128::MAX,
    ensures
        r == ewma_step_signed(e as int, x as int, alpha_num as int, alpha_den as int),
{
    proof {
        let m = if abs_int(x as int) >= abs_int(e as int) {
            abs_int(x as int)
        } else {
            abs_int(e as int)
        };
        lemma_ewma_numerator_bound(e as int, x as int, alpha_num as int, alpha_den as int, m);
    }
    let num: i128 = alpha_num * x + (alpha_den - alpha_num) * e;
    div_trunc_i128(num, alpha_den)
}

/// The numerator of an EWMA step is bounded by `alpha_den` times any bound
/// on the magnitudes of the two inputs.
pub proof fn lemma_ewma_numerator_bound(e: int, x: int, alpha_num: int, alpha_den: int, m: int)
    requires
        1 <= alpha_den,
        0 <= alpha_num <= alpha_den,
        abs_int(x) <= m,
        abs_int(e) <= m,
    ensures
        abs_int(alpha_num * x) <= alpha_den * m,
        abs_int((alpha_den - alpha_num) * e) <= alpha_den * m,
        abs_int(alpha_num * x + (alpha_den - alpha_num) * e) <= alpha_den * m,
{
    assert(abs_int(alpha_num * x) <= alpha_den * m && abs_int((alpha_den - alpha_num) * e)
        <= alpha_den * m && abs_int(alpha_num * x + (alpha_den - alpha_num) * e) <= alpha_den
        * m) by (nonlinear_arith)
        requires
            1 <= alpha_den,
            0 <= alpha_num <= alpha_den,
            abs_int(x) <= m,
            abs_int(e) <= m,
    ;
}

/// Division of an `i128` by a positive divisor, truncating toward zero.
pub(crate) fn div_trunc_i128(a: i128, b: i128) -> (r: i128)
    requires
        1 <= b,
        a > i128::MIN,
    ensures
        r == div_trunc(a as int, b as int),
{
    if a >= 0 {
        (((a as u128) / (b as u128)) as i128)
    } else {
        let neg: i128 = -a;
        -((((neg as u128) / (b as u128)) as i128))
    }
}

/// Truncating division never grows the magnitude past a bound that the
/// numerator keeps to: if `|a| <= b * c` then `|a / b| <= c`.
pub proof fn lemma_div_trunc_bound(a: int, b: int, c: int)
    requires
        1 <= b,
        0 <= c,
        abs_int(a) <= b * c,
    ensures
        abs_int(div_trunc(a, b)) <= c,
{
    if a >= 0 {
        assert(a / b <= c) by (nonlinear_arith)
            requires
                1 <= b,
                0 <= a <= b * c,
        ;
        assert(a / b >= 0) by (nonlinear_arith)
            requires
                1 <= b,
                0 <= a,
        ;
    } else {
        assert((-a) / b <= c) by (nonlinear_arith)
            requires
                1 <= b,
                0 <= -a <= b * c,
        ;
        assert((-a) / b >= 0) by (nonlinear_arith)
            requires
                1 <= b,
                0 <= -a,
        ;
    }
}

/// A floor division keeps below a strict bound that the numerator keeps to:
/// if `0 <= a < b * c` then `a / b < c`.
pub proof fn lemma_div_below(a: int, b: int, c: int)
    requires
        1 <= b,
        0 <= a,
        a < b * c,
    ensures
        0 <= a / b < c,
{
    assert(0 <= a / b < c) by (nonlinear_arith)
        requires
            1 <= b,
            0 <= a,
            a < b * c,
    ;
}

} // verus!
