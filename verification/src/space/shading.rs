//! Flat Phong shading: one color for a whole triangle.
//!
//! The color is the ambient light scaled by the ambient reflection, plus,
//! for each point light, a diffuse and a specular term, all added with
//! saturation. The light is taken to strike the triangle at its centroid.
use crate::gmath::{dot_spec, norm_spec, normalize_spec, scale_spec, sub_spec};
use crate::scalar::{clamp64, div_wide, scaled_product, trunc_div, Scalar};
use crate::screen::color::Color;
use crate::space::geometry::{Space, SpaceView};
use crate::space::light::Light;
use crate::space::Point;
use vstd::prelude::*;

verus! {

/// The exponent of the specular term. The larger it is, the tighter the
/// highlight.
pub const SHININESS: u32 = 2;

/// A third of `sum`, rounded toward zero.
pub open spec fn third(sum: int) -> Scalar {
    Scalar { raw: trunc_div(sum, 3) as i64 }
}

/// The average of the three corners.
pub open spec fn centroid_spec(p1: Point, p2: Point, p3: Point) -> Point {
    (third(p1.0@ + p2.0@ + p3.0@), third(p1.1@ + p2.1@ + p3.1@), third(p1.2@ + p2.2@ + p3.2@))
}

/// `s`, or zero where `s` is negative.
pub open spec fn nonnegative(s: Scalar) -> Scalar {
    if s@ < 0 {
        Scalar { raw: 0 }
    } else {
        s
    }
}

/// `s * s ^ (exponent - 1)`, each product rounded toward zero and
/// saturated; one for an exponent of zero.
pub open spec fn power(s: Scalar, exponent: nat) -> Scalar
    decreases exponent,
{
    if exponent == 0 {
        Scalar { raw: crate::scalar::ONE_RAW }
    } else {
        Scalar { raw: clamp64(scaled_product(power(s, (exponent - 1) as nat)@, s@)) as i64 }
    }
}

/// The unit vector from the centroid of the triangle toward `light`.
pub open spec fn to_light(light: Point, p1: Point, p2: Point, p3: Point) -> Point {
    normalize_spec(sub_spec(light, centroid_spec(p1, p2, p3)))
}

/// The unit normal of the triangle.
pub open spec fn unit_normal(p1: Point, p2: Point, p3: Point) -> Point {
    normalize_spec(norm_spec(p1, p2, p3))
}

/// The cosine of the angle between the normal and the direction to the
/// light.
pub open spec fn incidence(light: Point, p1: Point, p2: Point, p3: Point) -> Scalar {
    dot_spec(unit_normal(p1, p2, p3), to_light(light, p1, p2, p3))
}

/// The direction to the light mirrored at the normal:
/// `2 * (normal . to_light) * normal - to_light`.
pub open spec fn reflection(light: Point, p1: Point, p2: Point, p3: Point) -> Point {
    sub_spec(
        scale_spec(
            Scalar { raw: clamp64(2 * incidence(light, p1, p2, p3)@) as i64 },
            unit_normal(p1, p2, p3),
        ),
        to_light(light, p1, p2, p3),
    )
}

/// What `light` adds by diffuse reflection.
pub open spec fn diffuse_term<T: Color>(
    light: Light<T>,
    diffuse_reflection: (Scalar, Scalar, Scalar),
    p1: Point,
    p2: Point,
    p3: Point,
) -> T {
    light.col.spec_mult(
        scale_spec(nonnegative(incidence(light.pos, p1, p2, p3)), diffuse_reflection),
    )
}

/// What `light` adds by specular reflection toward `camera`.
pub open spec fn specular_term<T: Color>(
    light: Light<T>,
    specular_reflection: (Scalar, Scalar, Scalar),
    camera: Point,
    p1: Point,
    p2: Point,
    p3: Point,
) -> T {
    light.col.spec_mult(
        scale_spec(
            power(
                nonnegative(dot_spec(reflection(light.pos, p1, p2, p3), camera)),
                SHININESS as nat,
            ),
            specular_reflection,
        ),
    )
}

/// The color of the triangle under the ambient light and the first `n`
/// point lights of the space.
pub open spec fn lit_by<T: Color>(s: SpaceView<T>, p1: Point, p2: Point, p3: Point, n: nat) -> T
    decreases n,
{
    if n == 0 {
        s.ambient_light.spec_mult(s.ambient_reflection)
    } else {
        lit_by(s, p1, p2, p3, (n - 1) as nat).spec_plus(
            diffuse_term(s.lights[n - 1], s.diffuse_reflection, p1, p2, p3),
        ).spec_plus(
            specular_term(s.lights[n - 1], s.specular_reflection, s.camera, p1, p2, p3),
        )
    }
}

/// The color of the triangle under all the lights of the space.
pub open spec fn phong_spec<T: Color>(s: SpaceView<T>, p1: Point, p2: Point, p3: Point) -> T {
    lit_by(s, p1, p2, p3, s.lights.len())
}

/// A third of the sum of three scalars.
fn average(a: Scalar, b: Scalar, c: Scalar) -> (r: Scalar)
    ensures
        r == third(a@ + b@ + c@),
{
    let sum: i128 = a.raw as i128 + b.raw as i128 + c.raw as i128;
    proof {
        crate::scalar::lemma_trunc_div_monotone(sum as int, 3 * i64::MAX, 3);
        crate::scalar::lemma_trunc_div_monotone(3 * i64::MIN, sum as int, 3);
        crate::scalar::lemma_trunc_div_multiple(i64::MAX as int, 3);
        crate::scalar::lemma_trunc_div_multiple(i64::MIN as int, 3);
    }
    Scalar { raw: div_wide(sum, 3) as i64 }
}

/// The average of the three corners.
pub fn centroid(p1: Point, p2: Point, p3: Point) -> (c: Point)
    ensures
        c == centroid_spec(p1, p2, p3),
{
    (average(p1.0, p2.0, p3.0), average(p1.1, p2.1, p3.1), average(p1.2, p2.2, p3.2))
}

/// `s` raised to `exponent`.
fn raise(s: Scalar, exponent: u32) -> (r: Scalar)
    ensures
        r == power(s, exponent as nat),
{
    let mut r: Scalar = Scalar::one();
    let mut i: u32 = 0;
    while i < exponent
        invariant
            i <= exponent,
            r == power(s, i as nat),
        decreases exponent - i,
    {
        r = r.mul(s);
        i = i + 1;
    }
    r
}

/// The color of the triangle `p1`, `p2`, `p3` under the lights of `s`.
pub fn phong_color<T: Color>(p1: Point, p2: Point, p3: Point, s: &Space<T>) -> (color: T)
    ensures
        color == phong_spec(s@, p1, p2, p3),
{
    let mut color: T = s.ambient_light().mult(s.ambient_reflection());
    let lights: &Vec<Light<T>> = s.lights();
    let diffuse_reflection: (Scalar, Scalar, Scalar) = s.diffuse_reflection();
    let specular_reflection: (Scalar, Scalar, Scalar) = s.specular_reflection();
    let camera: Point = s.camera();
    let cm: Point = centroid(p1, p2, p3);
    let nrm: Point = crate::gmath::normalize(crate::gmath::norm(p1, p2, p3));
    let count: usize = lights.len();
    let mut i: usize = 0;
    while i < count
        invariant
            i <= count,
            count == s@.lights.len(),
            lights@ == s@.lights,
            diffuse_reflection == s@.diffuse_reflection,
            specular_reflection == s@.specular_reflection,
            camera == s@.camera,
            cm == centroid_spec(p1, p2, p3),
            nrm == unit_normal(p1, p2, p3),
            color == lit_by(s@, p1, p2, p3, i as nat),
        decreases count - i,
    {
        let l: Light<T> = lights[i];
        // diffuse
        let tol: Point = crate::gmath::normalize(crate::gmath::sub(l.pos, cm));
        let cosine: Scalar = crate::gmath::dot(nrm, tol);
        let d: Scalar = cosine.max(Scalar::zero());
        color = color.plus(l.col.mult(crate::gmath::scale(d, diffuse_reflection)));
        // specular
        let r: Point = crate::gmath::sub(crate::gmath::scale(cosine.mul_int(2), nrm), tol);
        let toward_camera: Scalar = crate::gmath::dot(r, camera).max(Scalar::zero());
        let c: (Scalar, Scalar, Scalar) = crate::gmath::scale(
            raise(toward_camera, SHININESS),
            specular_reflection,
        );
        color = color.plus(l.col.mult(c));
        i = i + 1;
    }
    color
}

} // verus!
