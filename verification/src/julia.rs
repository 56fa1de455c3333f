//! Escape-time iteration of the Julia map `z <- z^2 + c` on fixed-point
//! complex numbers.
//!
//! The orbit is fully determined by the raw fixed-point values: each square
//! is truncated once at the fixed-point scale, and the escape test compares
//! the exact (untruncated) squared magnitude of the new iterate against the
//! threshold.

use crate::fixed::{abs_int, lemma_tdiv_bound, tdiv, tdiv_i128, Fx, SCALE};
use vstd::prelude::*;

verus! {

/// Raw real part of `z^2 + c` for `z = (za, zb)`: `za^2 - zb^2 + ca`,
/// each square truncated at the fixed-point scale.
pub open spec fn julia_step_a(za: int, zb: int, ca: int) -> int {
    tdiv(za * za, SCALE as int) - tdiv(zb * zb, SCALE as int) + ca
}

/// Raw imaginary part of `z^2 + c`: `2*za*zb + cb`, truncated once.
pub open spec fn julia_step_b(za: int, zb: int, cb: int) -> int {
    tdiv(2 * za * zb, SCALE as int) + cb
}

/// The orbit of `z0 = (za0, zb0)` under `z <- z^2 + c`: raw values of the
/// `n`-th iterate.
pub open spec fn julia_orbit(za0: int, zb0: int, ca: int, cb: int, n: nat) -> (int, int)
    decreases n,
{
    if n == 0 {
        (za0, zb0)
    } else {
        let prev = julia_orbit(za0, zb0, ca, cb, (n - 1) as nat);
        (julia_step_a(prev.0, prev.1, ca), julia_step_b(prev.0, prev.1, cb))
    }
}

/// Whether the orbit escapes at step `n`: the squared magnitude of the
/// iterate produced by step `n` exceeds the threshold `t` (both sides in
/// raw units, so the comparison itself is exact).
pub open spec fn escaped_at(za0: int, zb0: int, ca: int, cb: int, t: int, n: nat) -> bool {
    let z = julia_orbit(za0, zb0, ca, cb, (n + 1) as nat);
    z.0 * z.0 + z.1 * z.1 > t * SCALE
}

/// The iteration count recorded when the evaluation starts at step `n`
/// (helper for `escape_count_spec`).
pub open spec fn escape_count_from(
    za0: int,
    zb0: int,
    ca: int,
    cb: int,
    t: int,
    max_iter: int,
    n: int,
) -> int
    decreases max_iter - n,
{
    if n >= max_iter - 1 {
        max_iter - 1
    } else if escaped_at(za0, zb0, ca, cb, t, n as nat) {
        n
    } else {
        escape_count_from(za0, zb0, ca, cb, t, max_iter, n + 1)
    }
}

/// The iteration count the field evaluator records: the first step at
/// which the orbit escapes, or `max_iter - 1` when the loop completes all
/// `max_iter` steps without escaping. The recorded count on non-escape is
/// deliberately `max_iter - 1`, not `max_iter`: the last loop index, a
/// behavioral detail that the palette bucketing depends on.
pub open spec fn escape_count_spec(
    za0: int,
    zb0: int,
    ca: int,
    cb: int,
    t: int,
    max_iter: int,
) -> int {
    escape_count_from(za0, zb0, ca, cb, t, max_iter, 0)
}

/// One application of `z <- z^2 + c` on fixed-point values.
pub fn julia_step(za: Fx, zb: Fx, ca: Fx, cb: Fx) -> (r: (Fx, Fx))
    requires
        abs_int(za.v as int) <= 0x4000_0000_0000,
        abs_int(zb.v as int) <= 0x4000_0000_0000,
        abs_int(ca.v as int) <= 0x4_0000_0000_0000,
        abs_int(cb.v as int) <= 0x4_0000_0000_0000,
    ensures
        r.0.v == julia_step_a(za.v as int, zb.v as int, ca.v as int),
        r.1.v == julia_step_b(za.v as int, zb.v as int, cb.v as int),
        abs_int(r.0.v as int) <= 0x4000_0000_0000_0000,
        abs_int(r.1.v as int) <= 0x4000_0000_0000_0000,
{
    let za128 = za.v as i128;
    let zb128 = zb.v as i128;
    proof {
        assert(0 <= za128 * za128 <= 0x1000_0000_0000_0000_0000_0000 && 0 <= zb128 * zb128
            <= 0x1000_0000_0000_0000_0000_0000 && -0x1000_0000_0000_0000_0000_0000 <= za128 * zb128
            <= 0x1000_0000_0000_0000_0000_0000) by (nonlinear_arith)
            requires
                -0x4000_0000_0000 <= za128 <= 0x4000_0000_0000,
                -0x4000_0000_0000 <= zb128 <= 0x4000_0000_0000,
        ;
    }
    let zaa: i128 = tdiv_i128(za128 * za128, 0x1_0000_0000i128);
    let zbb: i128 = tdiv_i128(zb128 * zb128, 0x1_0000_0000i128);
    let t2: i128 = 2 * (za128 * zb128);
    let zab: i128 = tdiv_i128(t2, 0x1_0000_0000i128);
    proof {
        lemma_tdiv_bound(za128 * za128, SCALE as int, 0x1000_0000_0000_0000);
        lemma_tdiv_bound(zb128 * zb128, SCALE as int, 0x1000_0000_0000_0000);
        lemma_tdiv_bound(t2 as int, SCALE as int, 0x2000_0000_0000_0000);
        assert(2 * (za128 * zb128) == 2 * za128 * zb128) by (nonlinear_arith);
    }
    let ra: i128 = zaa - zbb + ca.v as i128;
    let rb: i128 = zab + cb.v as i128;
    (Fx { v: ra as i64 }, Fx { v: rb as i64 })
}

/// Runs the escape-time loop: iterates `z <- z^2 + c` from `z0` up to
/// `max_iter` times, returning the index of the step whose result first
/// exceeded the threshold, or `max_iter - 1` if no step did.
pub fn escape_count(za0: Fx, zb0: Fx, ca: Fx, cb: Fx, threshold: Fx, max_iter: u32) -> (count: u32)
    requires
        1 <= max_iter,
        abs_int(za0.v as int) <= 0x4000_0000_0000,
        abs_int(zb0.v as int) <= 0x4000_0000_0000,
        abs_int(ca.v as int) <= 0x4_0000_0000_0000,
        abs_int(cb.v as int) <= 0x4_0000_0000_0000,
        0 < threshold.v <= 0x400_0000_0000_0000,
    ensures
        count == escape_count_spec(
            za0.v as int,
            zb0.v as int,
            ca.v as int,
            cb.v as int,
            threshold.v as int,
            max_iter as int,
        ),
        count < max_iter,
        forall|k: nat|
            k < count ==> !#[trigger] escaped_at(
                za0.v as int,
                zb0.v as int,
                ca.v as int,
                cb.v as int,
                threshold.v as int,
                k,
            ),
        escaped_at(
            za0.v as int,
            zb0.v as int,
            ca.v as int,
            cb.v as int,
            threshold.v as int,
            count as nat,
        ) || count == max_iter - 1,
{
    let ghost a0 = za0.v as int;
    let ghost b0 = zb0.v as int;
    let ghost cca = ca.v as int;
    let ghost ccb = cb.v as int;
    let ghost t = threshold.v as int;
    let ghost m = max_iter as int;
    let mut za = za0;
    let mut zb = zb0;
    let mut n: u32 = 0;
    while n < max_iter
        invariant
            n <= max_iter,
            1 <= max_iter,
            m == max_iter as int,
            a0 == za0.v as int,
            b0 == zb0.v as int,
            cca == ca.v as int,
            ccb == cb.v as int,
            t == threshold.v as int,
            abs_int(cca) <= 0x4_0000_0000_0000,
            abs_int(ccb) <= 0x4_0000_0000_0000,
            0 < t <= 0x400_0000_0000_0000,
            abs_int(za.v as int) <= 0x4000_0000_0000,
            abs_int(zb.v as int) <= 0x4000_0000_0000,
            (za.v as int, zb.v as int) == julia_orbit(a0, b0, cca, ccb, n as nat),
            forall|k: nat| k < n ==> !#[trigger] escaped_at(a0, b0, cca, ccb, t, k),
            escape_count_from(a0, b0, cca, ccb, t, m, 0) == escape_count_from(
                a0,
                b0,
                cca,
                ccb,
                t,
                m,
                n as int,
            ),
        decreases max_iter - n,
    {
        let (na, nb) = julia_step(za, zb, ca, cb);
        proof {
            assert(julia_orbit(a0, b0, cca, ccb, (n + 1) as nat) == (
                na.v as int,
                nb.v as int,
            ));
        }
        za = na;
        zb = nb;
        proof {
            assert(-0x4000_0000_0000_0000 <= za.v as int <= 0x4000_0000_0000_0000);
            assert(-0x4000_0000_0000_0000 <= zb.v as int <= 0x4000_0000_0000_0000);
            assert(0 <= (za.v as int) * (za.v as int)
                <= 0x1000_0000_0000_0000_0000_0000_0000_0000 && 0 <= (zb.v as int) * (zb.v as int)
                <= 0x1000_0000_0000_0000_0000_0000_0000_0000) by (nonlinear_arith)
                requires
                    -0x4000_0000_0000_0000 <= za.v as int <= 0x4000_0000_0000_0000,
                    -0x4000_0000_0000_0000 <= zb.v as int <= 0x4000_0000_0000_0000,
            ;
        }
        let aa: i128 = (za.v as i128) * (za.v as i128);
        let bb: i128 = (zb.v as i128) * (zb.v as i128);
        let rhs: i128 = (threshold.v as i128) * 0x1_0000_0000i128;
        if aa + bb > rhs {
            proof {
                assert(escaped_at(a0, b0, cca, ccb, t, n as nat));
                assert(escape_count_from(a0, b0, cca, ccb, t, m, n as int) == n);
            }
            return n;
        }
        proof {
            assert(!escaped_at(a0, b0, cca, ccb, t, n as nat));
            assert(abs_int(za.v as int) <= 0x4000_0000_0000 && abs_int(zb.v as int)
                <= 0x4000_0000_0000) by (nonlinear_arith)
                requires
                    (za.v as int) * (za.v as int) + (zb.v as int) * (zb.v as int) <= t
                        * 0x1_0000_0000,
                    t <= 0x400_0000_0000_0000,
            ;
            assert(escape_count_from(a0, b0, cca, ccb, t, m, n as int) == escape_count_from(
                a0,
                b0,
                cca,
                ccb,
                t,
                m,
                n as int + 1,
            ));
        }
        n = n + 1;
    }
    proof {
        assert(escape_count_from(a0, b0, cca, ccb, t, m, m) == m - 1);
    }
    max_iter - 1
}

} // verus!
