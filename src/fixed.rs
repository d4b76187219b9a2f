//! Fixed-point rounding of exact quotients.

use vstd::prelude::*;
use vstd::arithmetic::div_mod::{lemma_div_is_ordered, lemma_div_multiples_vanish};

verus! {

/// `n / d` rounded to the nearest integer, halves away from zero.
pub open spec fn round_div(n: int, d: int) -> int {
    if n >= 0 {
        (2 * n + d) / (2 * d)
    } else {
        -((-2 * n + d) / (2 * d))
    }
}

/// Rounding stays within one unit of any bound on the exact quotient.
pub proof fn lemma_round_div_bound(n: int, d: int, k: int)
    requires
        d > 0,
        k >= 0,
        -(k * d) <= n <= k * d,
    ensures
        -(k + 1) <= round_div(n, d) <= k + 1,
        0 <= n ==> 0 <= round_div(n, d),
{
    let m = if n >= 0 { n } else { -n };
    assert(2 * m + d <= 2 * d * (k + 1)) by (nonlinear_arith)
        requires m <= k * d, d > 0;
    lemma_div_is_ordered(2 * m + d, 2 * d * (k + 1), 2 * d);
    lemma_div_multiples_vanish(k + 1, 2 * d);
    assert(2 * d * (k + 1) == (2 * d) * (k + 1));
    lemma_div_is_ordered(0, 2 * m + d, 2 * d);
}

/// The quotient `n / d` rounded half away from zero.
pub fn round_div_i128(n: i128, d: i128) -> (r: i128)
    requires
        0 < d < 0x1000_0000_0000_0000_0000_0000_0000_0000,
        -0x1000_0000_0000_0000_0000_0000_0000_0000 < n < 0x1000_0000_0000_0000_0000_0000_0000_0000,
    ensures
        r == round_div(n as int, d as int),
{
    if n >= 0 {
        (2 * n + d) / (2 * d)
    } else {
        let m: i128 = -n;
        let q: i128 = (2 * m + d) / (2 * d);
        assert(0 <= q) by {
            lemma_div_is_ordered(0, 2 * m + d, 2 * d as int);
        }
        -q
    }
}

} // verus!
