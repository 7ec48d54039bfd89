//! Fixed-point scalars and the truncating division they are scaled with.
//!
//! The simulation holds every coordinate, speed and duration as an
//! integer count of steps of size `1 / FIXED_ONE` of a world unit.
//! Scaling a fixed-point value by another multiplies the two counts and
//! divides by `FIXED_ONE_SQ`, rounding toward zero.

use vstd::prelude::*;
use vstd::arithmetic::div_mod::{
    lemma_div_is_ordered, lemma_div_multiples_vanish, lemma_div_nonincreasing,
    lemma_div_pos_is_pos,
};

verus! {

/// Fixed-point steps per world unit.
pub const FIXED_ONE: i64 = 1000;

/// `FIXED_ONE * FIXED_ONE`: the divisor that rescales the product of two
/// fixed-point values.
pub const FIXED_ONE_SQ: i64 = 1_000_000;

/// Largest coordinate magnitude the simulation admits, in fixed-point steps.
pub const POS_LIMIT: i64 = 1_000_000_000_000;

/// Largest flock size the simulation admits.
pub const FLOCK_LIMIT: usize = 1000;

/// Division with the quotient rounded toward zero, the rounding every
/// fixed-point rescale in this crate uses.
pub open spec fn tdiv(a: int, b: int) -> int
    recommends
        b > 0,
{
    if a >= 0 {
        a / b
    } else {
        -((-a) / b)
    }
}

/// The quotient rounded toward zero lies between zero and the dividend:
/// it keeps the dividend's sign and never grows in magnitude.
pub proof fn lemma_tdiv_between_zero_and_dividend(a: int, b: int)
    requires
        1 <= b,
    ensures
        a >= 0 ==> 0 <= tdiv(a, b) <= a,
        a < 0 ==> a <= tdiv(a, b) <= 0,
{
    if a >= 0 {
        lemma_div_pos_is_pos(a, b);
        lemma_div_nonincreasing(a, b);
    } else {
        lemma_div_pos_is_pos(-a, b);
        lemma_div_nonincreasing(-a, b);
    }
}

/// A dividend bounded by `m * b` in magnitude has a quotient bounded by `m`.
pub proof fn lemma_tdiv_bounded(a: int, b: int, m: int)
    requires
        1 <= b,
        0 <= m,
        -(m * b) <= a <= m * b,
    ensures
        -m <= tdiv(a, b) <= m,
{
    if a >= 0 {
        lemma_div_pos_is_pos(a, b);
        lemma_div_is_ordered(a, m * b, b);
        lemma_div_multiples_vanish(m, b);
        assert(m * b == b * m) by (nonlinear_arith);
    } else {
        lemma_div_pos_is_pos(-a, b);
        lemma_div_is_ordered(-a, m * b, b);
        lemma_div_multiples_vanish(m, b);
        assert(m * b == b * m) by (nonlinear_arith);
    }
}

/// Division is exact on whole multiples of the divisor: no rounding
/// happens when the dividend is `b * x`.
pub proof fn lemma_tdiv_multiples_vanish(x: int, b: int)
    requires
        0 < b,
    ensures
        tdiv(b * x, b) == x,
{
    if x >= 0 {
        assert(b * x >= 0) by (nonlinear_arith)
            requires
                0 < b,
                0 <= x,
        ;
        lemma_div_multiples_vanish(x, b);
    } else {
        assert(b * x < 0 && -(b * x) == b * (-x)) by (nonlinear_arith)
            requires
                0 < b,
                x < 0,
        ;
        lemma_div_multiples_vanish(-x, b);
    }
}

/// Truncating division on machine integers, as Rust's `/` rounds.
pub fn div_trunc(a: i64, b: i64) -> (r: i64)
    requires
        1 <= b,
    ensures
        r == tdiv(a as int, b as int),
{
    proof {
        lemma_tdiv_between_zero_and_dividend(a as int, b as int);
    }
    let q = a.checked_div(b);
    q.unwrap()
}

} // verus!
