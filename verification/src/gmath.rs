//! Vector arithmetic on points.
use crate::scalar::{
    clamp64, clamp_wide, div_wide, floor_sqrt, is_floor_sqrt, lemma_product_bounds, mul_wide,
    product_wide, scaled_product, trunc_div, Scalar, ONE_RAW,
};
use crate::space::Point;
use vstd::prelude::*;

verus! {

/// The dot product: the sum of the three products, each rounded toward
/// zero, saturated.
pub open spec fn dot_spec(v1: Point, v2: Point) -> Scalar {
    Scalar {
        raw: clamp64(
            scaled_product(v1.0@, v2.0@) + scaled_product(v1.1@, v2.1@) + scaled_product(
                v1.2@,
                v2.2@,
            ),
        ) as i64,
    }
}

/// The component-wise sum, saturated.
pub open spec fn add_spec(p1: Point, p2: Point) -> Point {
    (
        Scalar { raw: clamp64(p1.0@ + p2.0@) as i64 },
        Scalar { raw: clamp64(p1.1@ + p2.1@) as i64 },
        Scalar { raw: clamp64(p1.2@ + p2.2@) as i64 },
    )
}

/// The component-wise difference, saturated.
pub open spec fn sub_spec(p1: Point, p2: Point) -> Point {
    (
        Scalar { raw: clamp64(p1.0@ - p2.0@) as i64 },
        Scalar { raw: clamp64(p1.1@ - p2.1@) as i64 },
        Scalar { raw: clamp64(p1.2@ - p2.2@) as i64 },
    )
}

/// Each component multiplied by `f`.
pub open spec fn scale_spec(f: Scalar, p: Point) -> Point {
    (
        Scalar { raw: clamp64(scaled_product(f@, p.0@)) as i64 },
        Scalar { raw: clamp64(scaled_product(f@, p.1@)) as i64 },
        Scalar { raw: clamp64(scaled_product(f@, p.2@)) as i64 },
    )
}

/// The cross product of `a` and `b`.
pub open spec fn cross_spec(a: Point, b: Point) -> Point {
    (
        Scalar { raw: clamp64(scaled_product(a.1@, b.2@) - scaled_product(a.2@, b.1@)) as i64 },
        Scalar { raw: clamp64(scaled_product(a.2@, b.0@) - scaled_product(a.0@, b.2@)) as i64 },
        Scalar { raw: clamp64(scaled_product(a.0@, b.1@) - scaled_product(a.1@, b.0@)) as i64 },
    )
}

/// The normal of the triangle `p1`, `p2`, `p3`: the cross product of the
/// edges that run to `p1` from `p2` and from `p3`.
pub open spec fn norm_spec(p1: Point, p2: Point, p3: Point) -> Point {
    cross_spec(sub_spec(p1, p2), sub_spec(p1, p3))
}

/// The square of the raw length of `p`.
pub open spec fn raw_length_squared(p: Point) -> int {
    p.0@ * p.0@ + p.1@ * p.1@ + p.2@ * p.2@
}

/// The raw length of `p`, rounded down.
pub open spec fn raw_length(p: Point) -> int {
    choose|r: int| is_floor_sqrt(raw_length_squared(p), r)
}

/// One component of a unit vector: `c / length`, rounded toward zero.
pub open spec fn unit_component(c: int, length: int) -> Scalar {
    Scalar { raw: clamp64(trunc_div(c * ONE_RAW, length)) as i64 }
}

/// The vector of length one in the direction of `p`, or the zero vector
/// where the raw length of `p` rounds down to zero.
pub open spec fn normalize_spec(p: Point) -> Point {
    let length = raw_length(p);
    if length == 0 {
        (Scalar { raw: 0 }, Scalar { raw: 0 }, Scalar { raw: 0 })
    } else {
        (
            unit_component(p.0@, length),
            unit_component(p.1@, length),
            unit_component(p.2@, length),
        )
    }
}

/// A number has only one square root rounded down.
pub proof fn lemma_floor_sqrt_unique(n: int, r: int, s: int)
    requires
        is_floor_sqrt(n, r),
        is_floor_sqrt(n, s),
    ensures
        r == s,
{
    if r < s {
        assert((r + 1) * (r + 1) <= s * s) by (nonlinear_arith)
            requires
                0 <= r,
                r + 1 <= s,
        ;
    } else if s < r {
        assert((s + 1) * (s + 1) <= r * r) by (nonlinear_arith)
            requires
                0 <= s,
                s + 1 <= r,
        ;
    }
}

/// No component of a vector is longer than the vector.
pub proof fn lemma_component_within_length(c: int, rest: int, length: int)
    requires
        0 <= rest,
        is_floor_sqrt(c * c + rest, length),
    ensures
        -length <= c <= length,
{
    if c > length {
        assert((length + 1) * (length + 1) <= c * c) by (nonlinear_arith)
            requires
                0 <= length,
                length + 1 <= c,
        ;
    } else if c < -length {
        assert((length + 1) * (length + 1) <= c * c) by (nonlinear_arith)
            requires
                0 <= length,
                c <= -(length + 1),
        ;
    }
}

/// No component of a normalized vector exceeds one in magnitude.
pub proof fn lemma_normalize_bounded(p: Point)
    ensures
        -ONE_RAW <= normalize_spec(p).0@ <= ONE_RAW,
        -ONE_RAW <= normalize_spec(p).1@ <= ONE_RAW,
        -ONE_RAW <= normalize_spec(p).2@ <= ONE_RAW,
{
    let squared = raw_length_squared(p);
    assert(p.0@ * p.0@ >= 0 && p.1@ * p.1@ >= 0 && p.2@ * p.2@ >= 0) by (nonlinear_arith);
    lemma_product_bounds(p.0@, p.0@);
    lemma_product_bounds(p.1@, p.1@);
    lemma_product_bounds(p.2@, p.2@);
    lemma_floor_sqrt_exists(squared);
    let length = raw_length(p);
    assert(is_floor_sqrt(squared, length));
    if length > 0 {
        lemma_component_within_length(p.0@, p.1@ * p.1@ + p.2@ * p.2@, length);
        lemma_component_within_length(p.1@, p.0@ * p.0@ + p.2@ * p.2@, length);
        lemma_component_within_length(p.2@, p.0@ * p.0@ + p.1@ * p.1@, length);
        lemma_unit_bounded(p.0@, length);
        lemma_unit_bounded(p.1@, length);
        lemma_unit_bounded(p.2@, length);
    }
}

/// A component that is no longer than the vector becomes at most one.
pub proof fn lemma_unit_bounded(c: int, length: int)
    requires
        0 < length,
        -length <= c <= length,
    ensures
        -ONE_RAW <= unit_component(c, length)@ <= ONE_RAW,
{
    assert(-(length * ONE_RAW) <= c * ONE_RAW <= length * ONE_RAW) by (nonlinear_arith)
        requires
            -length <= c <= length,
            ONE_RAW == 65536,
    ;
    crate::scalar::lemma_trunc_div_monotone(c * ONE_RAW, length * ONE_RAW, length);
    crate::scalar::lemma_trunc_div_monotone(-(length * ONE_RAW), c * ONE_RAW, length);
    crate::scalar::lemma_trunc_div_multiple(ONE_RAW as int, length);
    crate::scalar::lemma_trunc_div_multiple(-ONE_RAW as int, length);
    assert(ONE_RAW * length == length * ONE_RAW) by (nonlinear_arith);
    assert(-ONE_RAW * length == -(length * ONE_RAW)) by (nonlinear_arith);
}

/// Every number that is not negative has a square root rounded down.
pub proof fn lemma_floor_sqrt_exists(n: int)
    requires
        0 <= n,
    ensures
        exists|r: int| is_floor_sqrt(n, r),
    decreases n,
{
    if n == 0 {
        assert(is_floor_sqrt(0, 0));
    } else {
        let m = n - 1;
        lemma_floor_sqrt_exists(m);
        let r = choose|r: int| is_floor_sqrt(m, r);
        if (r + 1) * (r + 1) <= n {
            assert((r + 1) * (r + 1) == n);
            assert(n < (r + 2) * (r + 2)) by (nonlinear_arith)
                requires
                    (r + 1) * (r + 1) == n,
                    0 <= r,
            ;
            assert(is_floor_sqrt(n, r + 1));
        } else {
            assert(is_floor_sqrt(n, r));
        }
    }
}

/// The dot product of `v1` and `v2`.
pub fn dot(v1: Point, v2: Point) -> (r: Scalar)
    ensures
        r == dot_spec(v1, v2),
{
    let sum: i128 = product_wide(v1.0.raw, v2.0.raw) + product_wide(v1.1.raw, v2.1.raw)
        + product_wide(v1.2.raw, v2.2.raw);
    Scalar { raw: clamp_wide(sum) }
}

/// The normal of the triangle `p1`, `p2`, `p3`. It points toward the viewer
/// of a triangle whose corners run counter-clockwise.
pub fn norm(p1: Point, p2: Point, p3: Point) -> (r: Point)
    ensures
        r == norm_spec(p1, p2, p3),
{
    let a: Point = self::sub(p1, p2);
    let b: Point = self::sub(p1, p3);
    (
        Scalar {
            raw: clamp_wide(product_wide(a.1.raw, b.2.raw) - product_wide(a.2.raw, b.1.raw)),
        },
        Scalar {
            raw: clamp_wide(product_wide(a.2.raw, b.0.raw) - product_wide(a.0.raw, b.2.raw)),
        },
        Scalar {
            raw: clamp_wide(product_wide(a.0.raw, b.1.raw) - product_wide(a.1.raw, b.0.raw)),
        },
    )
}

/// The square of a raw count.
fn square(a: i64) -> (r: u128)
    ensures
        r == a * a,
        r <= 0x4000_0000_0000_0000_0000_0000_0000_0000,
{
    let wide: i128 = mul_wide(a, a);
    proof {
        lemma_product_bounds(a as int, a as int);
        assert(a * a >= 0) by (nonlinear_arith);
    }
    wide as u128
}

/// One component of a unit vector.
fn unit(c: i64, length: u64) -> (r: Scalar)
    requires
        length > 0,
    ensures
        r == unit_component(c as int, length as int),
{
    let wide: i128 = mul_wide(c, ONE_RAW);
    Scalar { raw: clamp_wide(div_wide(wide, length as i128)) }
}

/// The vector of length one in the direction of `p`.
pub fn normalize(p: Point) -> (r: Point)
    ensures
        r == normalize_spec(p),
{
    let squared: u128 = square(p.0.raw) + square(p.1.raw) + square(p.2.raw);
    let length: u64 = floor_sqrt(squared);
    proof {
        let chosen = raw_length(p);
        assert(is_floor_sqrt(raw_length_squared(p), length as int));
        lemma_floor_sqrt_unique(raw_length_squared(p), length as int, chosen);
    }
    if length == 0 {
        (Scalar::zero(), Scalar::zero(), Scalar::zero())
    } else {
        (unit(p.0.raw, length), unit(p.1.raw, length), unit(p.2.raw, length))
    }
}

/// The component-wise sum of `p1` and `p2`.
pub fn add(p1: Point, p2: Point) -> (r: Point)
    ensures
        r == add_spec(p1, p2),
{
    (p1.0.add(p2.0), p1.1.add(p2.1), p1.2.add(p2.2))
}

/// The component-wise difference of `p1` and `p2`.
pub fn sub(p1: Point, p2: Point) -> (r: Point)
    ensures
        r == sub_spec(p1, p2),
{
    (p1.0.sub(p2.0), p1.1.sub(p2.1), p1.2.sub(p2.2))
}

/// `p` with each component multiplied by `f`.
pub fn scale(f: Scalar, p: Point) -> (r: Point)
    ensures
        r == scale_spec(f, p),
{
    (f.mul(p.0), f.mul(p.1), f.mul(p.2))
}

} // verus!
