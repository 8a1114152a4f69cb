use vstd::prelude::*;

verus! {

/// `n / d` rounded to the nearest integer, halves away from zero, for `d > 0`.
pub open spec fn round_pos(n: int, d: int) -> int {
    if n >= 0 {
        (2 * n + d) / (2 * d)
    } else {
        -((2 * (-n) + d) / (2 * d))
    }
}

/// `n / d` rounded to the nearest integer, halves away from zero, for `d != 0`.
pub open spec fn round_div(n: int, d: int) -> int {
    if d < 0 {
        round_pos(-n, -d)
    } else {
        round_pos(n, d)
    }
}

/// Largest magnitude of a numerator that `round_div_i128` accepts (2^125).
pub open spec fn numerator_limit() -> int {
    0x2000_0000_0000_0000_0000_0000_0000_0000
}

/// Largest magnitude of a denominator that `round_div_i128` accepts (2^100).
pub open spec fn denominator_limit() -> int {
    0x10_0000_0000_0000_0000_0000_0000
}

pub fn round_div_i128(n: i128, d: i128) -> (r: i128)
    requires
        d != 0,
        -numerator_limit() <= n <= numerator_limit(),
        -denominator_limit() <= d <= denominator_limit(),
    ensures
        r == round_div(n as int, d as int),
{
    let nn: i128 = if d < 0 { -n } else { n };
    let dd: i128 = if d < 0 { -d } else { d };
    if nn >= 0 {
        let q: i128 = (2 * nn + dd) / (2 * dd);
        q
    } else {
        let q: i128 = (2 * (-nn) + dd) / (2 * dd);
        -q
    }
}

/// Rounding a non-negative quotient never exceeds the numerator, and a
/// numerator that is a whole multiple rounds to that multiple.
pub proof fn lemma_round_pos_bounds(n: int, d: int)
    requires
        n >= 0,
        d >= 1,
    ensures
        0 <= round_pos(n, d) <= n,
        round_pos(n, d) * d <= 2 * n,
{
    let q = (2 * n + d) / (2 * d);
    assert(0 <= q) by (nonlinear_arith)
        requires
            q == (2 * n + d) / (2 * d),
            n >= 0,
            d >= 1,
    ;
    assert(q * (2 * d) <= 2 * n + d) by (nonlinear_arith)
        requires
            q == (2 * n + d) / (2 * d),
            n >= 0,
            d >= 1,
    ;
    assert(q <= n) by (nonlinear_arith)
        requires
            q * (2 * d) <= 2 * n + d,
            n >= 0,
            d >= 1,
            q >= 0,
    ;
    assert(q * d <= 2 * n) by (nonlinear_arith)
        requires
            q * (2 * d) <= 2 * n + d,
            n >= 0,
            d >= 1,
            q >= 0,
    ;
}

/// `round_pos(m, span)` stays within `[0, k]` when `m <= k span`.
pub proof fn lemma_round_pos_scaled(m: int, span: int, k: int)
    requires
        0 <= m <= k * span,
        span >= 1,
        k >= 0,
    ensures
        0 <= round_pos(m, span) <= k,
{
    let q = (2 * m + span) / (2 * span);
    assert(0 <= q <= k) by (nonlinear_arith)
        requires
            q == (2 * m + span) / (2 * span),
            0 <= m <= k * span,
            span >= 1,
            k >= 0,
    {
        assert(2 * m + span < (k + 1) * (2 * span));
    }
}

} // verus!
