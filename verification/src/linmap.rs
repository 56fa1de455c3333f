//! The linear range map shared by every rescaling step of the pipeline:
//! pixel coordinates to plane coordinates, iteration counts to palette
//! indices, and color components to channel bytes.
//!
//! The map is `(val - src_min) * (dst_max - dst_min) / (src_max - src_min)
//! + dst_min`, computed on fixed-point raw values with the quotient rounded
//! toward zero.

use crate::fixed::{abs_int, lemma_tdiv_exact, tdiv, tdiv_i128, Fx};
use vstd::arithmetic::div_mod::lemma_div_of0;
use vstd::arithmetic::mul::lemma_mul_is_commutative;
use vstd::prelude::*;

verus! {

/// The linear map on raw fixed-point values: `val`, measured against the
/// source range `[src_min, src_max]`, is carried to the destination range
/// `[dst_min, dst_max]`; the quotient is rounded toward zero.
pub open spec fn lin_map_spec(
    val: int,
    src_min: int,
    src_max: int,
    dst_min: int,
    dst_max: int,
) -> int {
    tdiv((val - src_min) * (dst_max - dst_min), src_max - src_min) + dst_min
}

/// Linearly rescales `val` from `[src_min, src_max]` to `[dst_min, dst_max]`.
pub fn lin_map(val: Fx, src_min: Fx, src_max: Fx, dst_min: Fx, dst_max: Fx) -> (r: Fx)
    requires
        src_min.v != src_max.v,
        abs_int(val.v - src_min.v) <= 0x4000_0000_0000_0000,
        abs_int(dst_max.v - dst_min.v) <= 0x4000_0000_0000_0000,
        i64::MIN <= lin_map_spec(
            val.v as int,
            src_min.v as int,
            src_max.v as int,
            dst_min.v as int,
            dst_max.v as int,
        ) <= i64::MAX,
    ensures
        r.v == lin_map_spec(
            val.v as int,
            src_min.v as int,
            src_max.v as int,
            dst_min.v as int,
            dst_max.v as int,
        ),
{
    let dv: i128 = val.v as i128 - src_min.v as i128;
    let dd: i128 = dst_max.v as i128 - dst_min.v as i128;
    let den: i128 = src_max.v as i128 - src_min.v as i128;
    proof {
        assert(-0x1000_0000_0000_0000_0000_0000_0000_0000 <= dv * dd
            <= 0x1000_0000_0000_0000_0000_0000_0000_0000) by (nonlinear_arith)
            requires
                -0x4000_0000_0000_0000 <= dv <= 0x4000_0000_0000_0000,
                -0x4000_0000_0000_0000 <= dd <= 0x4000_0000_0000_0000,
        ;
    }
    let num: i128 = dv * dd;
    let q: i128 = tdiv_i128(num, den);
    let r128: i128 = q + (dst_min.v as i128);
    Fx { v: r128 as i64 }
}

/// Boundary law of the linear map: the source endpoints are carried
/// exactly to the destination endpoints, for any ranges with
/// `src_min != src_max`.
pub proof fn lemma_lin_map_boundary(a: int, b: int, c: int, d: int)
    requires
        a != b,
    ensures
        lin_map_spec(a, a, b, c, d) == c,
        lin_map_spec(b, a, b, c, d) == d,
{
    assert((a - a) * (d - c) == 0);
    lemma_div_of0(abs_int(b - a));
    assert(tdiv(0, b - a) == 0);
    lemma_mul_is_commutative(b - a, d - c);
    lemma_tdiv_exact(d - c, b - a);
}

/// Midpoint law of the linear map: the midpoint of the source range is
/// carried exactly to the midpoint of the destination range, whenever
/// both midpoints are exactly representable (both range sums even).
pub proof fn lemma_lin_map_midpoint(a: int, b: int, c: int, d: int)
    requires
        a != b,
        (a + b) % 2 == 0,
        (c + d) % 2 == 0,
    ensures
        lin_map_spec((a + b) / 2, a, b, c, d) == (c + d) / 2,
{
    let m = (a + b) / 2;
    let h = (d - c) / 2;
    assert(2 * m == a + b);
    assert(2 * h == d - c);
    assert((m - a) * (d - c) == (b - a) * h) by (nonlinear_arith)
        requires
            2 * (m - a) == b - a,
            d - c == 2 * h,
    ;
    lemma_mul_is_commutative(b - a, h);
    lemma_tdiv_exact(h, b - a);
}

} // verus!
