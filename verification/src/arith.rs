//! Division that drops the remainder toward zero.

use vstd::prelude::*;

verus! {

/// The quotient with the remainder dropped toward zero.
pub open spec fn trunc_div(a: int, b: int) -> int
    recommends
        b != 0,
{
    if a >= 0 && b > 0 {
        a / b
    } else if a >= 0 {
        -(a / (-b))
    } else if b > 0 {
        -((-a) / b)
    } else {
        (-a) / (-b)
    }
}

/// Divides, dropping the remainder toward zero.
pub fn divide(a: i64, b: i64) -> (quotient: i128)
    requires
        b != 0,
    ensures
        quotient == trunc_div(a as int, b as int),
        -0x8000_0000_0000_0000 <= quotient <= 0x8000_0000_0000_0000,
{
    let wide_a: i128 = a as i128;
    let wide_b: i128 = b as i128;
    let size_a: i128 = if wide_a >= 0 {
        wide_a
    } else {
        -wide_a
    };
    let size_b: i128 = if wide_b >= 0 {
        wide_b
    } else {
        -wide_b
    };
    let size: i128 = size_a / size_b;
    assert(0 <= size <= size_a) by (nonlinear_arith)
        requires
            size == size_a as int / size_b as int,
            0 <= size_a,
            0 < size_b,
    ;
    if (wide_a >= 0) == (wide_b > 0) {
        size
    } else {
        -size
    }
}

/// A quotient that drops its remainder, times the divisor, lies between
/// zero and what was divided.
pub proof fn lemma_quotient_times(a: int, b: int)
    requires
        b != 0,
    ensures
        a >= 0 ==> 0 <= trunc_div(a, b) * b <= a,
        a < 0 ==> a <= trunc_div(a, b) * b <= 0,
{
    let size_a = if a >= 0 { a } else { -a };
    let size_b = if b > 0 { b } else { -b };
    let size = size_a / size_b;
    assert(0 <= size * size_b <= size_a) by (nonlinear_arith)
        requires
            size == size_a / size_b,
            0 <= size_a,
            0 < size_b,
    ;
    assert(trunc_div(a, b) * b == if a >= 0 { size * size_b } else { -(size * size_b) })
        by (nonlinear_arith)
        requires
            size_a == if a >= 0 { a } else { -a },
            size_b == if b > 0 { b } else { -b },
            b != 0,
            trunc_div(a, b) == if (a >= 0) == (b > 0) { size } else { -size },
    ;
}

/// A quotient that drops its remainder lies no farther from zero than what
/// was divided.
pub proof fn lemma_trunc_div_bounds(a: int, b: int)
    requires
        0 < b,
    ensures
        a >= 0 ==> 0 <= trunc_div(a, b) <= a,
        a < 0 ==> a <= trunc_div(a, b) <= 0,
{
    if a >= 0 {
        assert(0 <= a / b <= a) by (nonlinear_arith)
            requires
                0 <= a,
                0 < b,
        ;
    } else {
        assert(0 <= (-a) / b <= -a) by (nonlinear_arith)
            requires
                0 <= -a,
                0 < b,
        ;
    }
}

} // verus!
