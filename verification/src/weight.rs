//! Shipping-weight estimation: the running mean of measured weights and the
//! schedule on which an operator is asked to look at it.

use vstd::prelude::*;
use crate::arith::trunc_div;

verus! {

/// Below this count of measured units every doubling asks for a review.
pub const DOUBLING_BOUND: i64 = 33;

/// Whole part of the binary logarithm of `n`; 0 for every `n` below 2.
pub open spec fn log2_floor(n: int) -> int
    decreases n,
{
    if n <= 1 {
        0
    } else {
        1 + log2_floor(n / 2)
    }
}

/// Whether a product whose count of measured units went from `before` to
/// `after` is due for a weight review: at the first unit, at every doubling
/// while the count is small, and whenever a multiple of `period` is reached
/// or passed.
pub open spec fn review_due(before: int, after: int, period: int) -> bool {
    ||| after == 1
    ||| (after < DOUBLING_BOUND && log2_floor(after) > log2_floor(before))
    ||| after / period > before / period
}

/// The estimate in the catalogue's unit: the mean measured weight of a unit,
/// times 1000, by the weight ratio; each division drops the remainder
/// toward zero.
pub open spec fn estimated_weight(sale_weight: int, count: int, ratio: int) -> int {
    trunc_div((sale_weight / count) * 1000, ratio)
}

/// The logarithm of a small number.
pub proof fn lemma_log2_small(n: int)
    requires
        n < 64,
    ensures
        log2_floor(n) == if n < 2 {
            0int
        } else if n < 4 {
            1
        } else if n < 8 {
            2
        } else if n < 16 {
            3
        } else if n < 32 {
            4
        } else {
            5
        },
{
    reveal_with_fuel(log2_floor, 8);
}

/// Units measured one by one ask for a review at the counts 1, 2, 4, 8, 16
/// and 32 and at every multiple of the period, and at no other count.
pub proof fn lemma_review_schedule(count: int, period: int)
    requires
        1 <= count,
        1 <= period,
    ensures
        review_due(count - 1, count, period) <==> (count == 1 || count == 2 || count == 4 || count
            == 8 || count == 16 || count == 32 || count % period == 0),
{
    if count < 64 {
        lemma_log2_small(count);
        lemma_log2_small(count - 1);
    }
    assert((count / period > (count - 1) / period) <==> count % period == 0)
        by (nonlinear_arith)
        requires
            1 <= count,
            1 <= period,
    ;
}

/// Whole part of the binary logarithm.
pub fn floor_log2(n: i64) -> (level: i64)
    ensures
        level == log2_floor(n as int),
        0 <= level,
{
    let mut rest = n;
    let mut level: i64 = 0;
    while rest > 1
        invariant
            0 <= level,
            rest > 1 ==> level + rest <= n,
            log2_floor(n as int) == level + log2_floor(rest as int),
        decreases rest,
    {
        rest = rest / 2;
        level = level + 1;
    }
    level
}

/// Decides whether the new count of measured units asks for a review.
pub fn needs_review(before: i64, after: i64, period: i64) -> (due: bool)
    requires
        0 <= before,
        0 <= after,
        0 < period,
    ensures
        due == review_due(before as int, after as int, period as int),
{
    after == 1 || (after < DOUBLING_BOUND && floor_log2(after) > floor_log2(before)) || after
        / period > before / period
}

/// Computes the estimate. `None` where it does not fit a 64-bit number.
pub fn estimate(sale_weight: i64, count: i64, ratio: i64) -> (weight: Option<i64>)
    requires
        0 <= sale_weight,
        0 < count,
        ratio != 0,
    ensures
        weight == if i64::MIN <= estimated_weight(sale_weight as int, count as int, ratio as int)
            <= i64::MAX {
            Some(estimated_weight(sale_weight as int, count as int, ratio as int) as i64)
        } else {
            None
        },
{
    let mean = sale_weight / count;
    assert(0 <= mean <= sale_weight) by (nonlinear_arith)
        requires
            mean == sale_weight as int / count as int,
            0 <= sale_weight,
            0 < count,
    ;
    let scaled: i128 = mean as i128 * 1000;
    let size: i128 = if ratio > 0 {
        ratio as i128
    } else {
        -(ratio as i128)
    };
    let part: i128 = scaled / size;
    assert(0 <= part <= scaled) by (nonlinear_arith)
        requires
            part == scaled as int / size as int,
            0 <= scaled,
            0 < size,
    ;
    let weight: i128 = if ratio > 0 {
        part
    } else {
        -part
    };
    if weight < i64::MIN as i128 || weight > i64::MAX as i128 {
        None
    } else {
        Some(weight as i64)
    }
}

} // verus!
