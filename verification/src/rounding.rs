//! Rounding of exact integer fractions to the nearest integer.
//!
//! The inverse isometric projection recovers a world coordinate as a
//! fraction `n / d` of two integers with `d > 0`; the grid cell nearest
//! to that coordinate is found by rounding the fraction to the nearest
//! integer, with ties rounded away from zero.  This module defines that
//! rounding rule, an executable form of it, and the two facts about it
//! that the projection proofs rest on: rounding an exact multiple of `d`
//! recovers the multiplier, and rounding anything strictly within half
//! of `d` of a multiple recovers the same multiplier.

use vstd::arithmetic::div_mod::lemma_div_decreases;
use vstd::arithmetic::div_mod::lemma_div_pos_is_pos;
use vstd::arithmetic::div_mod::lemma_fundamental_div_mod_converse;
use vstd::prelude::*;

verus! {

/// Largest magnitude accepted by `round_half_from_zero_i128` for the
/// numerator and the denominator; equal to `2^125`, which leaves room to
/// double the numerator and add the denominator without leaving `i128`.
pub const ROUND_MAG_LIMIT: i128 = 0x2000_0000_0000_0000_0000_0000_0000_0000;

/// The integer nearest to the fraction `n / d` (for `d > 0`), with ties
/// rounded away from zero: `round_half_from_zero(5, 2) == 3` and
/// `round_half_from_zero(-5, 2) == -3`.
pub open spec fn round_half_from_zero(n: int, d: int) -> int {
    if n >= 0 {
        (2 * n + d) / (2 * d)
    } else {
        -((2 * (-n) + d) / (2 * d))
    }
}

/// Rounding a fraction that lies strictly within half of `d` of the
/// integer `k` yields exactly `k`.  This is the sense in which the
/// rounding rule picks the nearest integer.
pub proof fn lemma_round_near(n: int, d: int, k: int)
    requires
        d >= 1,
        -d < 2 * (n - k * d) < d,
    ensures
        round_half_from_zero(n, d) == k,
{
    let e = n - k * d;
    if n >= 0 {
        assert(2 * n + d == k * (2 * d) + (2 * e + d)) by (nonlinear_arith)
            requires
                e == n - k * d,
        ;
        lemma_fundamental_div_mod_converse(2 * n + d, 2 * d, k, 2 * e + d);
    } else {
        assert(2 * (-n) + d == (-k) * (2 * d) + (d - 2 * e)) by (nonlinear_arith)
            requires
                e == n - k * d,
        ;
        lemma_fundamental_div_mod_converse(2 * (-n) + d, 2 * d, -k, d - 2 * e);
    }
}

/// Rounding an exact multiple `k * d` of the denominator recovers `k`.
pub proof fn lemma_round_exact(k: int, d: int)
    requires
        d >= 1,
    ensures
        round_half_from_zero(k * d, d) == k,
{
    lemma_round_near(k * d, d, k);
}

/// Executable nearest-integer rounding of the fraction `n / d`, ties
/// away from zero.  The division itself runs on non-negative `u128`
/// values so that its meaning coincides with mathematical division.
pub fn round_half_from_zero_i128(n: i128, d: i128) -> (r: i128)
    requires
        1 <= d <= ROUND_MAG_LIMIT,
        -ROUND_MAG_LIMIT <= n <= ROUND_MAG_LIMIT,
    ensures
        r == round_half_from_zero(n as int, d as int),
{
    let du: u128 = d as u128;
    if n >= 0 {
        let a: u128 = n as u128;
        let q: u128 = (2 * a + du) / (2 * du);
        proof {
            lemma_div_pos_is_pos(2 * (a as int) + du, 2 * (du as int));
            lemma_div_decreases(2 * (a as int) + du, 2 * (du as int));
        }
        q as i128
    } else {
        let a: u128 = (-n) as u128;
        let q: u128 = (2 * a + du) / (2 * du);
        proof {
            lemma_div_pos_is_pos(2 * (a as int) + du, 2 * (du as int));
            lemma_div_decreases(2 * (a as int) + du, 2 * (du as int));
        }
        -(q as i128)
    }
}

} // verus!
