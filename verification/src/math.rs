use vstd::prelude::*;

use vstd::arithmetic::div_mod::lemma_div_is_ordered;
use vstd::arithmetic::div_mod::lemma_div_multiples_vanish;
use vstd::arithmetic::div_mod::lemma_fundamental_div_mod;

verus! {

/// A numerator below `q * d` divides to a quotient below `q`.
pub proof fn lemma_div_below(x: int, q: int, d: int)
    requires
        0 < d,
        0 <= x,
        x < q * d,
    ensures
        x / d < q,
{
    let k = x / d;
    let r = x % d;
    lemma_fundamental_div_mod(x, d);
    assert(k < q) by (nonlinear_arith)
        requires
            0 < d,
            0 <= r,
            d * k + r == x,
            x < q * d,
    ;
}

/// The division undoes the multiplication: `(d * q) / d == q`.
pub proof fn lemma_mul_div_exact(q: int, d: int)
    requires
        0 < d,
    ensures
        (d * q) / d == q,
{
    lemma_div_multiples_vanish(q, d);
}

/// The quotient times the divisor stays at or below the numerator.
pub proof fn lemma_div_times_divisor_le(x: int, d: int)
    requires
        0 < d,
        0 <= x,
    ensures
        d * (x / d) <= x,
{
    lemma_fundamental_div_mod(x, d);
}

/// Taking `x` parts of `t` out of `y` parts yields at most `t`.
pub proof fn lemma_part_le_whole(x: int, t: int, y: int)
    requires
        0 <= x <= y,
        0 <= t,
        0 < y,
    ensures
        x * t / y <= t,
{
    assert(x * t <= y * t) by (nonlinear_arith)
        requires
            x <= y,
            0 <= t,
    ;
    lemma_div_is_ordered(x * t, y * t, y);
    lemma_div_multiples_vanish(t, y);
}

/// Taking strictly fewer than `y` parts of `t` out of `y` yields strictly
/// less than `t`.
pub proof fn lemma_part_lt_whole(x: int, t: int, y: int)
    requires
        0 <= x < y,
        0 < t,
    ensures
        x * t / y < t,
{
    assert(0 <= x * t && x * t < t * y) by (nonlinear_arith)
        requires
            0 <= x < y,
            0 < t,
    ;
    lemma_div_below(x * t, t, y);
}

/// The product of two positive integers is positive.
pub proof fn lemma_mul_pos(a: int, b: int)
    requires
        1 <= a,
        1 <= b,
    ensures
        1 <= a * b,
{
    assert(1 <= a * b) by (nonlinear_arith)
        requires
            1 <= a,
            1 <= b,
    ;
}

} // verus!
