//! Linear maps between a parameter's plain range and the normalized domain.
//!
//! The denominator of both maps is `|max| + |min|`, not `max - min`: the two
//! agree exactly when `min <= 0 <= max`, which every descriptor in the
//! registry satisfies, and the asymmetric form is this engine's contract.

use crate::ratio::Ratio;
use crate::ratio::trunc_div;
use crate::ratio::trunc_div_i128;
use vstd::prelude::*;

verus! {

pub open spec fn abs_int(x: int) -> int {
    if x >= 0 {
        x
    } else {
        -x
    }
}

/// The normalization denominator `|max| + |min|` of a plain range.
pub open spec fn spec_range(min: int, max: int) -> int {
    abs_int(max) + abs_int(min)
}

/// Numerator of the normalized image of `plain = pn / pd`:
/// `(plain - min) / range` over the common denominator `pd * range`.
pub open spec fn spec_normalize_num(pn: int, pd: int, min: int) -> int {
    pn - min * pd
}

/// Denominator of the normalized image of `plain = pn / pd`.
pub open spec fn spec_normalize_den(pd: int, min: int, max: int) -> int {
    pd * spec_range(min, max)
}

/// The plain image of a normalized `v = vn / vd`: `v * range + min`,
/// truncated toward zero to an integral value.
pub open spec fn spec_denormalize(vn: int, vd: int, min: int, max: int) -> int {
    trunc_div(vn * spec_range(min, max) + min * vd, vd)
}

/// Bounds under which the exact linear maps below stay inside `i64`.
pub open spec fn plain_in_machine_bounds(plain: Ratio) -> bool {
    &&& plain.den <= 1_000_000_000
    &&& -1_000_000_000_000_000 <= plain.num <= 1_000_000_000_000_000
}

/// Exact linear normalization `(plain - min) / (|max| + |min|)`.
pub fn linear_normalize(plain: Ratio, min: i32, max: i32) -> (r: Ratio)
    requires
        plain.wf(),
        plain_in_machine_bounds(plain),
        spec_range(min as int, max as int) >= 1,
    ensures
        r.wf(),
        r.num == spec_normalize_num(plain.num as int, plain.den as int, min as int),
        r.den == spec_normalize_den(plain.den as int, min as int, max as int),
{
    let range: i64 = range_of(min, max);
    proof {
        assert((min as int) * (plain.den as int) <= 3_000_000_000_000_000_000
            && (min as int) * (plain.den as int) >= -3_000_000_000_000_000_000)
            by (nonlinear_arith)
            requires
                -2_147_483_648 <= min as int <= 2_147_483_647,
                1 <= plain.den as int <= 1_000_000_000,
        ;
        assert(1 <= (plain.den as int) * (range as int) <= 5_000_000_000_000_000_000)
            by (nonlinear_arith)
            requires
                1 <= plain.den as int <= 1_000_000_000,
                1 <= range as int <= 4_294_967_296,
        ;
    }
    let num: i64 = plain.num - (min as i64) * plain.den;
    let den: i64 = plain.den * range;
    Ratio { num, den }
}

/// Exact linear denormalization `v * (|max| + |min|) + min`, truncated
/// toward zero. The input must lie in the normalized domain `[0, 1]`.
pub fn linear_denormalize(v: Ratio, min: i32, max: i32) -> (r: i64)
    requires
        v.wf(),
        v.is_normalized(),
        spec_range(min as int, max as int) >= 1,
    ensures
        r == spec_denormalize(v.num as int, v.den as int, min as int, max as int),
        min <= r <= spec_range(min as int, max as int) + min,
{
    let range: i64 = range_of(min, max);
    proof {
        assert(0 <= (v.num as int) * (range as int)
            <= 10_000_000_000_000_000_000 * 5_000_000_000) by (nonlinear_arith)
            requires
                0 <= v.num as int <= 10_000_000_000_000_000_000,
                0 <= range as int <= 5_000_000_000,
        ;
        assert(-10_000_000_000_000_000_000 * 5_000_000_000 <= (min as int) * (v.den as int)
            <= 10_000_000_000_000_000_000 * 5_000_000_000) by (nonlinear_arith)
            requires
                1 <= v.den as int <= 10_000_000_000_000_000_000,
                -5_000_000_000 <= min as int <= 5_000_000_000,
        ;
    }
    let wide: i128 = (v.num as i128) * (range as i128) + (min as i128) * (v.den as i128);
    let q: i128 = trunc_div_i128(wide, v.den as i128);
    proof {
        lemma_denormalize_bounds(v.num as int, v.den as int, min as int, max as int);
    }
    q as i64
}

/// The exact plain range `|max| + |min|` as a machine integer.
pub fn range_of(min: i32, max: i32) -> (r: i64)
    ensures
        r == spec_range(min as int, max as int),
{
    let amin: i64 = if min >= 0 {
        min as i64
    } else {
        -(min as i64)
    };
    let amax: i64 = if max >= 0 {
        max as i64
    } else {
        -(max as i64)
    };
    amax + amin
}

/// The truncated plain image of a normalized value stays between `min` and
/// `range + min`.
proof fn lemma_denormalize_bounds(vn: int, vd: int, min: int, max: int)
    requires
        vd >= 1,
        0 <= vn <= vd,
        spec_range(min, max) >= 1,
    ensures
        min <= spec_denormalize(vn, vd, min, max) <= spec_range(min, max) + min,
{
    let range = spec_range(min, max);
    let wide = vn * range + min * vd;
    assert(min * vd <= wide <= range * vd + min * vd) by (nonlinear_arith)
        requires
            vd >= 1,
            0 <= vn <= vd,
            range >= 1,
            wide == vn * range + min * vd,
    ;
    if wide >= 0 {
        assert(wide / vd >= min) by (nonlinear_arith)
            requires
                vd >= 1,
                wide >= min * vd,
                wide >= 0,
        ;
        assert(wide / vd <= range + min) by (nonlinear_arith)
            requires
                vd >= 1,
                wide <= range * vd + min * vd,
                wide >= 0,
        ;
    } else {
        assert(-((-wide) / vd) >= min) by (nonlinear_arith)
            requires
                vd >= 1,
                wide >= min * vd,
                wide < 0,
        ;
        assert(-((-wide) / vd) <= range + min) by (nonlinear_arith)
            requires
                vd >= 1,
                wide <= range * vd + min * vd,
                wide < 0,
        ;
    }
}

/// Round trip: for any plain integer `p` of a valid range, denormalizing
/// its normalized image recovers `p` exactly — the truncation toward zero
/// acts on an exactly integral value, so no error at all is left (in
/// particular it stays within the truncation's one-unit allowance).
pub proof fn lemma_denormalize_normalize_exact(min: int, max: int, p: int)
    requires
        spec_range(min, max) >= 1,
        min <= p <= max,
    ensures
        spec_denormalize(
            spec_normalize_num(p, 1, min),
            spec_normalize_den(1, min, max),
            min,
            max,
        ) == p,
{
    let range = spec_range(min, max);
    let vn = spec_normalize_num(p, 1, min);
    let vd = spec_normalize_den(1, min, max);
    assert(vn == p - min);
    assert(vd == range);
    assert(vn * range + min * vd == p * range) by (nonlinear_arith)
        requires
            vn == p - min,
            vd == range,
    ;
    if p >= 0 {
        assert(p * range >= 0) by (nonlinear_arith)
            requires
                p >= 0,
                range >= 1,
        ;
        assert((p * range) / range == p) by {
            vstd::arithmetic::div_mod::lemma_div_multiples_vanish(p, range);
        };
    } else {
        assert(-(p * range) == (-p) * range) by (nonlinear_arith);
        assert((-p) * range >= 0) by (nonlinear_arith)
            requires
                p < 0,
                range >= 1,
        ;
        assert(((-p) * range) / range == -p) by {
            vstd::arithmetic::div_mod::lemma_div_multiples_vanish(-p, range);
        };
    }
}

/// The range endpoints normalize to the exact ends of the control domain:
/// `min` maps to zero (a zero numerator) and, under the engine's sign
/// convention `min <= 0 <= max`, `max` maps to one (numerator equal to
/// denominator). Outside that convention the asymmetric denominator
/// `|max| + |min|` differs from `max - min` and `max` lands short of (or
/// past) one; no descriptor in the registry does so.
pub proof fn lemma_normalize_endpoints(min: int, max: int)
    requires
        spec_range(min, max) >= 1,
        min <= 0 <= max,
    ensures
        spec_normalize_num(min, 1, min) == 0,
        spec_normalize_num(max, 1, min) == spec_normalize_den(1, min, max),
{
    assert(spec_range(min, max) == max - min);
}

} // verus!
