//! Fixed-point arithmetic in thousandths.
//!
//! Physical quantities and multipliers are carried as unsigned integers that
//! count thousandths of their unit, so `1000` stands for one.  Products are
//! brought back to that scale by a division that rounds to the nearest
//! integer, a half going up.

use vstd::arithmetic::div_mod::lemma_fundamental_div_mod;
use vstd::arithmetic::div_mod::lemma_fundamental_div_mod_converse;
use vstd::arithmetic::div_mod::lemma_mod_bound;
use vstd::prelude::*;

verus! {

/// The integer that stands for one.
pub const SCALE: u32 = 1000;

/// `n / d` rounded to the nearest integer, a half going up.
pub open spec fn round_div(n: int, d: int) -> int
    recommends
        n >= 0,
        d > 0,
{
    (2 * n + d) / (2 * d)
}

/// Rounding adds one to the truncated quotient exactly when the remainder
/// is at least half the divisor.
pub proof fn lemma_round_div_by_remainder(n: int, d: int)
    requires
        n >= 0,
        d > 0,
    ensures
        round_div(n, d) == n / d + (if 2 * (n % d) >= d { 1int } else { 0int }),
{
    let q = n / d;
    let r = n % d;
    lemma_fundamental_div_mod(n, d);
    lemma_mod_bound(n, d);
    assert(d * q == q * d) by (nonlinear_arith);
    if 2 * r >= d {
        assert(2 * n + d == (q + 1) * (2 * d) + (2 * r - d)) by (nonlinear_arith)
            requires
                n == q * d + r,
        ;
        lemma_fundamental_div_mod_converse(2 * n + d, 2 * d, q + 1, 2 * r - d);
    } else {
        assert(2 * n + d == q * (2 * d) + (2 * r + d)) by (nonlinear_arith)
            requires
                n == q * d + r,
        ;
        lemma_fundamental_div_mod_converse(2 * n + d, 2 * d, q, 2 * r + d);
    }
}

/// The rounded quotient lies within half a divisor of the exact one.
pub proof fn lemma_round_div_bounds(n: int, d: int)
    requires
        n >= 0,
        d > 0,
    ensures
        2 * n - d < 2 * d * round_div(n, d) <= 2 * n + d,
        round_div(n, d) >= 0,
{
    let q = round_div(n, d);
    lemma_fundamental_div_mod(2 * n + d, 2 * d);
    lemma_mod_bound(2 * n + d, 2 * d);
    assert(2 * d * q == (2 * d) * q) by (nonlinear_arith);
    vstd::arithmetic::div_mod::lemma_div_pos_is_pos(2 * n + d, 2 * d);
}

/// Divides and rounds to the nearest integer, a half going up.
pub fn div_round(n: u128, d: u128) -> (q: u128)
    requires
        d > 0,
    ensures
        q == round_div(n as int, d as int),
{
    let quotient: u128 = n / d;
    let remainder: u128 = n % d;
    proof {
        lemma_round_div_by_remainder(n as int, d as int);
        lemma_fundamental_div_mod(n as int, d as int);
        lemma_mod_bound(n as int, d as int);
        if remainder >= d - remainder {
            // d >= 2 here, so the quotient is at most half of the largest value
            assert(d >= 2);
            assert(quotient < u128::MAX) by (nonlinear_arith)
                requires
                    n == d * quotient + remainder,
                    d >= 2,
                    n <= u128::MAX,
                    remainder >= 0,
                    quotient >= 0,
            ;
        }
    }
    if remainder >= d - remainder {
        quotient + 1
    } else {
        quotient
    }
}

} // verus!
