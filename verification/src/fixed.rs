//! Signed fixed-point numbers with 32 fractional bits.
//!
//! All plane coordinates and fractal arithmetic in this crate are carried
//! out on `Fx` values: an `i64` raw value `v` stands for the mathematical
//! value `v / SCALE`. Every operation rounds toward zero, and every
//! contract states the exact raw value produced, so the whole numeric
//! pipeline is deterministic and fully specified.

use vstd::prelude::*;
use vstd::arithmetic::div_mod::{
    lemma_div_by_multiple, lemma_div_denominator, lemma_div_is_ordered, lemma_div_nonincreasing,
    lemma_div_pos_is_pos,
};
use vstd::arithmetic::mul::{
    lemma_mul_is_commutative, lemma_mul_nonnegative, lemma_mul_strictly_positive,
    lemma_mul_unary_negation,
};

verus! {

/// Raw units per mathematical unit: a fixed-point value stores its
/// mathematical value times `SCALE`, rounded toward zero, in an `i64`.
pub const SCALE: i64 = 0x1_0000_0000;

/// Magnitude of an integer.
pub open spec fn abs_int(a: int) -> int {
    if a >= 0 {
        a
    } else {
        -a
    }
}

/// Division rounded toward zero, the rounding used by every fixed-point
/// operation in this crate; meaningful only for `b != 0`.
pub open spec fn tdiv(a: int, b: int) -> int {
    if (a >= 0) == (b >= 0) {
        abs_int(a) / abs_int(b)
    } else {
        -(abs_int(a) / abs_int(b))
    }
}

/// A fixed-point number: the mathematical value is `v / SCALE`.
#[derive(Clone, Copy, PartialEq, Eq, Structural, Debug)]
pub struct Fx {
    pub v: i64,
}

impl Fx {
    /// The fixed-point representation of the integer `n`.
    pub fn from_int(n: i64) -> (r: Fx)
        requires
            -0x4000_0000 <= n <= 0x4000_0000,
        ensures
            r.v == n * SCALE,
    {
        Fx { v: n * SCALE }
    }

    /// The fixed-point value nearest `num / den` toward zero.
    pub fn from_ratio(num: i64, den: i64) -> (r: Fx)
        requires
            0 < den,
            -0x4000_0000 <= num <= 0x4000_0000,
        ensures
            r.v == tdiv(num * SCALE, den as int),
    {
        let t: i128 = (num as i128) * 0x1_0000_0000i128;
        let q: i128 = tdiv_i128(t, den as i128);
        proof {
            lemma_tdiv_bound(t as int, den as int, 0x4000_0000_0000_0000);
        }
        Fx { v: q as i64 }
    }
}

/// Truncating division on `i128` raw values, proved to compute `tdiv`.
pub(crate) fn tdiv_i128(a: i128, b: i128) -> (q: i128)
    requires
        b != 0,
        a != i128::MIN,
        b != i128::MIN,
    ensures
        q == tdiv(a as int, b as int),
{
    let an: u128 = if a >= 0 {
        a as u128
    } else {
        (-a) as u128
    };
    let bn: u128 = if b >= 0 {
        b as u128
    } else {
        (-b) as u128
    };
    let qn: u128 = an / bn;
    proof {
        lemma_div_nonincreasing(an as int, bn as int);
        lemma_div_pos_is_pos(an as int, bn as int);
    }
    if (a >= 0) == (b >= 0) {
        qn as i128
    } else {
        -(qn as i128)
    }
}

/// Negating numerator and denominator together leaves the truncated
/// quotient unchanged.
pub proof fn lemma_tdiv_flip(a: int, b: int)
    requires
        b != 0,
    ensures
        tdiv(a, b) == tdiv(-a, -b),
{
}

/// Truncated division of an exact multiple recovers the factor, for any
/// sign of the factor and of the divisor.
pub proof fn lemma_tdiv_exact(k: int, b: int)
    requires
        b != 0,
    ensures
        tdiv(k * b, b) == k,
{
    if b > 0 {
        lemma_tdiv_exact_pos(k, b);
    } else {
        lemma_tdiv_flip(k * b, b);
        lemma_mul_unary_negation(k, b);
        assert(-(k * b) == k * (-b));
        lemma_tdiv_exact_pos(k, -b);
    }
}

proof fn lemma_tdiv_exact_pos(k: int, b: int)
    requires
        b > 0,
    ensures
        tdiv(k * b, b) == k,
{
    if k >= 0 {
        lemma_mul_nonnegative(k, b);
        lemma_div_by_multiple(k, b);
    } else {
        lemma_mul_strictly_positive(-k, b);
        lemma_mul_unary_negation(k, b);
        assert(abs_int(k * b) == (-k) * b);
        lemma_mul_nonnegative(-k, b);
        lemma_div_by_multiple(-k, b);
    }
}

/// A magnitude bound on a truncated quotient from a bound on the
/// numerator: if `|a| <= bound * b` then `|tdiv(a, b)| <= bound`.
pub proof fn lemma_tdiv_bound(a: int, b: int, bound: int)
    requires
        b > 0,
        0 <= bound,
        abs_int(a) <= bound * b,
    ensures
        abs_int(tdiv(a, b)) <= bound,
        -bound <= tdiv(a, b) <= bound,
{
    lemma_div_pos_is_pos(abs_int(a), b);
    lemma_div_is_ordered(abs_int(a), bound * b, b);
    lemma_div_by_multiple(bound, b);
}

/// For nonnegative operands the truncated quotient is the Euclidean one.
pub proof fn lemma_tdiv_is_div(a: int, b: int)
    requires
        a >= 0,
        b > 0,
    ensures
        tdiv(a, b) == a / b,
{
}

/// A common positive factor of numerator and denominator cancels.
pub proof fn lemma_tdiv_cancel_common(a: int, b: int, k: int)
    requires
        a >= 0,
        b > 0,
        k > 0,
    ensures
        tdiv(a * k, b * k) == tdiv(a, b),
{
    lemma_mul_nonnegative(a, k);
    lemma_mul_strictly_positive(b, k);
    lemma_div_denominator(a * k, k, b);
    assert((a * k) / k == a) by {
        lemma_div_by_multiple(a, k);
    }
    lemma_mul_is_commutative(k, b);
    lemma_mul_is_commutative(b, k);
}

/// Dividing `a * s` by `m` and then truncating away the factor `s`
/// yields exactly `a / m`: the scaled quotient loses no integer part.
pub proof fn lemma_tdiv_nested(a: int, m: int, s: int)
    requires
        a >= 0,
        m > 0,
        s > 0,
    ensures
        tdiv(tdiv(a * s, m), s) == tdiv(a, m),
{
    lemma_mul_nonnegative(a, s);
    lemma_div_pos_is_pos(a * s, m);
    lemma_div_denominator(a * s, m, s);
    assert((a * s) / (m * s) == a / m) by {
        lemma_tdiv_cancel_common(a, m, s);
    }
}

} // verus!
