//! Composition of transforms.
//!
//! Applying one transform after another is applying their product, as long
//! as no product of two scalars has to be rounded and no sum saturates.
//! Transforms with whole-number entries, such as translations by whole
//! pixels and rotations by right angles, are of that kind.
//!
//! Where products are rounded, the two ways differ by the rounding alone:
//! by a few raw counts for transforms and points of moderate size.
use crate::scalar::{scaled_product, ONE_RAW};
use crate::screen::color::Color;
use crate::space::geometry::{
    transformed, transformed_coordinate, transformed_line, transformed_triangle, SpaceView, Vertex,
};
use crate::space::modtrix::{product, row_by_column, Modtrix};
use vstd::prelude::*;

verus! {

/// Whether the product of the two raw counts is a raw count without
/// rounding.
pub open spec fn exact(a: int, b: int) -> bool {
    (a * b) % (ONE_RAW as int) == 0
}

/// Whether `v` is the raw count of some scalar.
pub open spec fn fits(v: int) -> bool {
    i64::MIN <= v <= i64::MAX
}

/// Whether `m` can be applied to `v` without rounding and without
/// saturation.
pub open spec fn exact_transform(m: Modtrix, v: Vertex) -> bool {
    forall|i: int|
        0 <= i < 4 ==> {
            &&& exact(v[0]@, #[trigger] m.store[i][0]@)
            &&& exact(v[1]@, m.store[i][1]@)
            &&& exact(v[2]@, m.store[i][2]@)
            &&& exact(v[3]@, m.store[i][3]@)
            &&& fits(
                scaled_product(v[0]@, m.store[i][0]@) + scaled_product(v[1]@, m.store[i][1]@)
                    + scaled_product(v[2]@, m.store[i][2]@) + scaled_product(
                    v[3]@,
                    m.store[i][3]@,
                ),
            )
        }
}

/// Whether the product of `lhs` and `rhs` can be formed without rounding
/// and without saturation.
pub open spec fn exact_product(lhs: Modtrix, rhs: Modtrix) -> bool {
    forall|i: int, j: int|
        0 <= i < 4 && 0 <= j < 4 ==> {
            &&& exact(#[trigger] lhs.store[i][0]@, #[trigger] rhs.store[0][j]@)
            &&& exact(lhs.store[i][1]@, rhs.store[1][j]@)
            &&& exact(lhs.store[i][2]@, rhs.store[2][j]@)
            &&& exact(lhs.store[i][3]@, rhs.store[3][j]@)
            &&& fits(
                scaled_product(lhs.store[i][0]@, rhs.store[0][j]@) + scaled_product(
                    lhs.store[i][1]@,
                    rhs.store[1][j]@,
                ) + scaled_product(lhs.store[i][2]@, rhs.store[2][j]@) + scaled_product(
                    lhs.store[i][3]@,
                    rhs.store[3][j]@,
                ),
            )
        }
}

/// Whether applying `first` and then `second` to `v`, and applying their
/// product to `v`, all go without rounding and without saturation.
pub open spec fn exact_composition(first: Modtrix, second: Modtrix, v: Vertex) -> bool {
    &&& exact_transform(first, v)
    &&& exact_transform(second, transformed(first, v))
    &&& exact_product(second, first)
    &&& exact_transform(product(second, first), v)
}

/// A product that needs no rounding times one is the product of the raw
/// counts.
pub proof fn lemma_exact_product(a: int, b: int)
    requires
        exact(a, b),
    ensures
        ONE_RAW * scaled_product(a, b) == a * b,
{
    let p = a * b;
    let d = ONE_RAW as int;
    if p >= 0 {
        vstd::arithmetic::div_mod::lemma_fundamental_div_mod(p, d);
    } else {
        vstd::arithmetic::div_mod::lemma_fundamental_div_mod(p, d);
        let q = p / d;
        assert(p == d * q);
        assert(-p == d * (-q)) by (nonlinear_arith)
            requires
                p == d * q,
        ;
        vstd::arithmetic::div_mod::lemma_fundamental_div_mod_converse(-p, d, -q, 0);
    }
}

/// One term of a transform applied to a transformed vertex, multiplied out.
proof fn lemma_row_term(
    v0: int,
    v1: int,
    v2: int,
    v3: int,
    b0: int,
    b1: int,
    b2: int,
    b3: int,
    a: int,
    q0: int,
    q1: int,
    q2: int,
    q3: int,
    r: int,
)
    requires
        ONE_RAW * q0 == v0 * b0,
        ONE_RAW * q1 == v1 * b1,
        ONE_RAW * q2 == v2 * b2,
        ONE_RAW * q3 == v3 * b3,
        ONE_RAW * r == (q0 + q1 + q2 + q3) * a,
    ensures
        ONE_RAW * (ONE_RAW * r) == v0 * b0 * a + v1 * b1 * a + v2 * b2 * a + v3 * b3 * a,
{
    assert(ONE_RAW * ((q0 + q1 + q2 + q3) * a) == (ONE_RAW * q0) * a + (ONE_RAW * q1) * a + (
    ONE_RAW * q2) * a + (ONE_RAW * q3) * a) by (nonlinear_arith);
}

/// One term of the product of two transforms applied to a vertex,
/// multiplied out.
proof fn lemma_column_term(
    v: int,
    a0: int,
    a1: int,
    a2: int,
    a3: int,
    b0: int,
    b1: int,
    b2: int,
    b3: int,
    p0: int,
    p1: int,
    p2: int,
    p3: int,
    t: int,
)
    requires
        ONE_RAW * p0 == a0 * b0,
        ONE_RAW * p1 == a1 * b1,
        ONE_RAW * p2 == a2 * b2,
        ONE_RAW * p3 == a3 * b3,
        ONE_RAW * t == v * (p0 + p1 + p2 + p3),
    ensures
        ONE_RAW * (ONE_RAW * t) == v * b0 * a0 + v * b1 * a1 + v * b2 * a2 + v * b3 * a3,
{
    assert(ONE_RAW * (v * (p0 + p1 + p2 + p3)) == v * (ONE_RAW * p0) + v * (ONE_RAW * p1) + v * (
    ONE_RAW * p2) + v * (ONE_RAW * p3)) by (nonlinear_arith);
    assert(v * (a0 * b0) == v * b0 * a0) by (nonlinear_arith);
    assert(v * (a1 * b1) == v * b1 * a1) by (nonlinear_arith);
    assert(v * (a2 * b2) == v * b2 * a2) by (nonlinear_arith);
    assert(v * (a3 * b3) == v * b3 * a3) by (nonlinear_arith);
}

/// The unsaturated sum that a coordinate of `m * v` is made of.
pub open spec fn coordinate_sum(m: Modtrix, v: Vertex, i: int) -> int {
    scaled_product(v[0]@, m.store[i][0]@) + scaled_product(v[1]@, m.store[i][1]@)
        + scaled_product(v[2]@, m.store[i][2]@) + scaled_product(v[3]@, m.store[i][3]@)
}

/// The coordinate `k` of `first * v`, multiplied by an entry `a` of the
/// second transform, where nothing is rounded.
proof fn lemma_first_then_entry(first: Modtrix, v: Vertex, k: int, a: int, r: int)
    requires
        0 <= k < 4,
        exact_transform(first, v),
        ONE_RAW * r == transformed(first, v)[k]@ * a,
    ensures
        ONE_RAW * (ONE_RAW * r) == v[0]@ * first.store[k][0]@ * a + v[1]@ * first.store[k][1]@
            * a + v[2]@ * first.store[k][2]@ * a + v[3]@ * first.store[k][3]@ * a,
{
    assert(exact(v[0]@, first.store[k][0]@));
    lemma_exact_product(v[0]@, first.store[k][0]@);
    lemma_exact_product(v[1]@, first.store[k][1]@);
    lemma_exact_product(v[2]@, first.store[k][2]@);
    lemma_exact_product(v[3]@, first.store[k][3]@);
    assert(transformed(first, v)[k] == transformed_coordinate(first, v, k));
    assert(transformed(first, v)[k]@ == coordinate_sum(first, v, k));
    lemma_row_term(
        v[0]@,
        v[1]@,
        v[2]@,
        v[3]@,
        first.store[k][0]@,
        first.store[k][1]@,
        first.store[k][2]@,
        first.store[k][3]@,
        a,
        scaled_product(v[0]@, first.store[k][0]@),
        scaled_product(v[1]@, first.store[k][1]@),
        scaled_product(v[2]@, first.store[k][2]@),
        scaled_product(v[3]@, first.store[k][3]@),
        r,
    );
}

/// The coordinate `j` of `v`, multiplied by the entry `(i, j)` of the
/// product of the two transforms, where nothing is rounded.
proof fn lemma_entry_of_product(second: Modtrix, first: Modtrix, i: int, j: int, v: int, t: int)
    requires
        0 <= i < 4,
        0 <= j < 4,
        exact_product(second, first),
        ONE_RAW * t == v * product(second, first).store[i][j]@,
    ensures
        ONE_RAW * (ONE_RAW * t) == v * first.store[0][j]@ * second.store[i][0]@ + v
            * first.store[1][j]@ * second.store[i][1]@ + v * first.store[2][j]@
            * second.store[i][2]@ + v * first.store[3][j]@ * second.store[i][3]@,
{
    assert(exact(second.store[i][0]@, first.store[0][j]@));
    lemma_exact_product(second.store[i][0]@, first.store[0][j]@);
    lemma_exact_product(second.store[i][1]@, first.store[1][j]@);
    lemma_exact_product(second.store[i][2]@, first.store[2][j]@);
    lemma_exact_product(second.store[i][3]@, first.store[3][j]@);
    assert(product(second, first).store[i][j] == row_by_column(second, first, i, j));
    lemma_column_term(
        v,
        second.store[i][0]@,
        second.store[i][1]@,
        second.store[i][2]@,
        second.store[i][3]@,
        first.store[0][j]@,
        first.store[1][j]@,
        first.store[2][j]@,
        first.store[3][j]@,
        scaled_product(second.store[i][0]@, first.store[0][j]@),
        scaled_product(second.store[i][1]@, first.store[1][j]@),
        scaled_product(second.store[i][2]@, first.store[2][j]@),
        scaled_product(second.store[i][3]@, first.store[3][j]@),
        t,
    );
}

/// One coordinate of a vertex transformed twice is that coordinate of the
/// vertex transformed by the product, where nothing is rounded.
proof fn lemma_compose_coordinate(first: Modtrix, second: Modtrix, v: Vertex, i: int)
    requires
        0 <= i < 4,
        exact_composition(first, second, v),
    ensures
        transformed_coordinate(second, transformed(first, v), i) == transformed_coordinate(
            product(second, first),
            v,
            i,
        ),
{
    let w = transformed(first, v);
    let c = product(second, first);
    // the four terms of the left side
    let r0 = scaled_product(w[0]@, second.store[i][0]@);
    let r1 = scaled_product(w[1]@, second.store[i][1]@);
    let r2 = scaled_product(w[2]@, second.store[i][2]@);
    let r3 = scaled_product(w[3]@, second.store[i][3]@);
    assert(exact(w[0]@, second.store[i][0]@));
    lemma_exact_product(w[0]@, second.store[i][0]@);
    lemma_exact_product(w[1]@, second.store[i][1]@);
    lemma_exact_product(w[2]@, second.store[i][2]@);
    lemma_exact_product(w[3]@, second.store[i][3]@);
    lemma_first_then_entry(first, v, 0, second.store[i][0]@, r0);
    lemma_first_then_entry(first, v, 1, second.store[i][1]@, r1);
    lemma_first_then_entry(first, v, 2, second.store[i][2]@, r2);
    lemma_first_then_entry(first, v, 3, second.store[i][3]@, r3);
    // the four terms of the right side
    let t0 = scaled_product(v[0]@, c.store[i][0]@);
    let t1 = scaled_product(v[1]@, c.store[i][1]@);
    let t2 = scaled_product(v[2]@, c.store[i][2]@);
    let t3 = scaled_product(v[3]@, c.store[i][3]@);
    assert(exact(v[0]@, c.store[i][0]@));
    lemma_exact_product(v[0]@, c.store[i][0]@);
    lemma_exact_product(v[1]@, c.store[i][1]@);
    lemma_exact_product(v[2]@, c.store[i][2]@);
    lemma_exact_product(v[3]@, c.store[i][3]@);
    lemma_entry_of_product(second, first, i, 0, v[0]@, t0);
    lemma_entry_of_product(second, first, i, 1, v[1]@, t1);
    lemma_entry_of_product(second, first, i, 2, v[2]@, t2);
    lemma_entry_of_product(second, first, i, 3, v[3]@, t3);
    let left = r0 + r1 + r2 + r3;
    let right = t0 + t1 + t2 + t3;
    assert(ONE_RAW * (ONE_RAW * left) == ONE_RAW * (ONE_RAW * r0) + ONE_RAW * (ONE_RAW * r1)
        + ONE_RAW * (ONE_RAW * r2) + ONE_RAW * (ONE_RAW * r3)) by (nonlinear_arith)
        requires
            left == r0 + r1 + r2 + r3,
    ;
    assert(ONE_RAW * (ONE_RAW * right) == ONE_RAW * (ONE_RAW * t0) + ONE_RAW * (ONE_RAW * t1)
        + ONE_RAW * (ONE_RAW * t2) + ONE_RAW * (ONE_RAW * t3)) by (nonlinear_arith)
        requires
            right == t0 + t1 + t2 + t3,
    ;
    assert(ONE_RAW * (ONE_RAW * left) == ONE_RAW * (ONE_RAW * right));
    assert(left == right) by (nonlinear_arith)
        requires
            ONE_RAW * (ONE_RAW * left) == ONE_RAW * (ONE_RAW * right),
            ONE_RAW == 65536,
    ;
}

/// Transforming a vertex by `first` and then by `second` is transforming
/// it by the product of `second` and `first`, where nothing is rounded.
pub proof fn lemma_compose_vertex(first: Modtrix, second: Modtrix, v: Vertex)
    requires
        exact_composition(first, second, v),
    ensures
        transformed(second, transformed(first, v)) == transformed(product(second, first), v),
{
    lemma_compose_coordinate(first, second, v, 0);
    lemma_compose_coordinate(first, second, v, 1);
    lemma_compose_coordinate(first, second, v, 2);
    lemma_compose_coordinate(first, second, v, 3);
    assert(transformed(second, transformed(first, v)) =~= transformed(product(second, first), v));
}

/// Whether every vertex of the space can be transformed by `first`, then by
/// `second`, and by their product, without rounding and without saturation.
pub open spec fn exact_on<T: Color>(s: SpaceView<T>, first: Modtrix, second: Modtrix) -> bool {
    &&& forall|i: int|
        0 <= i < s.lines.len() ==> exact_composition(first, second, (#[trigger] s.lines[i]).0)
            && exact_composition(first, second, s.lines[i].1)
    &&& forall|i: int|
        0 <= i < s.triangles.len() ==> exact_composition(
            first,
            second,
            (#[trigger] s.triangles[i]).0,
        ) && exact_composition(first, second, s.triangles[i].1) && exact_composition(
            first,
            second,
            s.triangles[i].2,
        )
}

/// Applying `first` and then `second` to a space is applying the product
/// of `second` and `first` once, where nothing is rounded.
pub proof fn lemma_apply_composes<T: Color>(s: SpaceView<T>, first: Modtrix, second: Modtrix)
    requires
        exact_on(s, first, second),
    ensures
        s.apply(first).apply(second) == s.apply(product(second, first)),
{
    let twice = s.apply(first).apply(second);
    let once = s.apply(product(second, first));
    assert forall|i: int| 0 <= i < s.lines.len() implies twice.lines[i] == once.lines[i] by {
        lemma_compose_vertex(first, second, s.lines[i].0);
        lemma_compose_vertex(first, second, s.lines[i].1);
        assert(s.apply(first).lines[i] == transformed_line(first, s.lines[i]));
    }
    assert forall|i: int| 0 <= i < s.triangles.len() implies twice.triangles[i]
        == once.triangles[i] by {
        lemma_compose_vertex(first, second, s.triangles[i].0);
        lemma_compose_vertex(first, second, s.triangles[i].1);
        lemma_compose_vertex(first, second, s.triangles[i].2);
        assert(s.apply(first).triangles[i] == transformed_triangle(first, s.triangles[i]));
    }
    assert(twice.lines =~= once.lines);
    assert(twice.triangles =~= once.triangles);
}

/// Whether `m` can be applied to `v` without saturation.
pub open spec fn unsaturated_transform(m: Modtrix, v: Vertex) -> bool {
    forall|i: int| 0 <= i < 4 ==> fits(#[trigger] coordinate_sum(m, v, i))
}

/// The unsaturated sum that an entry of the product of `lhs` and `rhs` is
/// made of.
pub open spec fn entry_sum(lhs: Modtrix, rhs: Modtrix, i: int, j: int) -> int {
    scaled_product(lhs.store[i][0]@, rhs.store[0][j]@) + scaled_product(
        lhs.store[i][1]@,
        rhs.store[1][j]@,
    ) + scaled_product(lhs.store[i][2]@, rhs.store[2][j]@) + scaled_product(
        lhs.store[i][3]@,
        rhs.store[3][j]@,
    )
}

/// Whether the product of `lhs` and `rhs` can be formed without
/// saturation.
pub open spec fn unsaturated_product(lhs: Modtrix, rhs: Modtrix) -> bool {
    forall|i: int, j: int| 0 <= i < 4 && 0 <= j < 4 ==> fits(#[trigger] entry_sum(lhs, rhs, i, j))
}

/// Whether applying `first` and then `second` to `v`, and applying their
/// product to `v`, all go without saturation.
pub open spec fn unsaturated_composition(first: Modtrix, second: Modtrix, v: Vertex) -> bool {
    &&& unsaturated_transform(first, v)
    &&& unsaturated_transform(second, transformed(first, v))
    &&& unsaturated_product(second, first)
    &&& unsaturated_transform(product(second, first), v)
}

/// The absolute value of `v`.
pub open spec fn size(v: int) -> int {
    if v < 0 {
        -v
    } else {
        v
    }
}

/// How far, in raw counts times `ONE_RAW`, coordinate `i` of a vertex `v`
/// transformed twice may lie from that of `v` transformed by the product:
/// four raw counts for each unit of the sizes of row `i` of the second
/// transform and of `v`, and eight more.
pub open spec fn rounding_bound(second: Modtrix, v: Vertex, i: int) -> int {
    4 * (size(second.store[i][0]@) + size(second.store[i][1]@) + size(second.store[i][2]@)
        + size(second.store[i][3]@) + size(v[0]@) + size(v[1]@) + size(v[2]@) + size(v[3]@)) + 8
        * ONE_RAW
}

/// Rounding a product loses less than one raw count.
pub proof fn lemma_rounding_loss(a: int, b: int)
    ensures
        -(ONE_RAW - 1) <= a * b - ONE_RAW * scaled_product(a, b) <= ONE_RAW - 1,
{
    let p = a * b;
    let d = ONE_RAW as int;
    if p >= 0 {
        vstd::arithmetic::div_mod::lemma_fundamental_div_mod(p, d);
    } else {
        vstd::arithmetic::div_mod::lemma_fundamental_div_mod(-p, d);
    }
}

/// A factor times a sum of four terms less a fifth.
proof fn lemma_distribute(f: int, x0: int, x1: int, x2: int, x3: int, y: int)
    ensures
        f * (x0 + x1 + x2 + x3 - y) == f * x0 + f * x1 + f * x2 + f * x3 - f * y,
{
    assert(f * (x0 + x1 + x2 + x3 - y) == f * x0 + f * x1 + f * x2 + f * x3 - f * y)
        by (nonlinear_arith);
}

/// Eight losses, each within its bound, add up to less than the rounding
/// bound.
proof fn lemma_combine(
    left: int,
    right: int,
    e: (int, int, int, int),
    f: (int, int, int, int),
    a: (int, int, int, int),
    v: (int, int, int, int),
)
    requires
        ONE_RAW * (ONE_RAW * left) - ONE_RAW * (ONE_RAW * right) == (e.0 + e.1 + e.2 + e.3) - (f.0
            + f.1 + f.2 + f.3),
        0 <= a.0 && 0 <= a.1 && 0 <= a.2 && 0 <= a.3,
        0 <= v.0 && 0 <= v.1 && 0 <= v.2 && 0 <= v.3,
        size(e.0) <= 4 * (ONE_RAW - 1) * a.0 + ONE_RAW * (ONE_RAW - 1),
        size(e.1) <= 4 * (ONE_RAW - 1) * a.1 + ONE_RAW * (ONE_RAW - 1),
        size(e.2) <= 4 * (ONE_RAW - 1) * a.2 + ONE_RAW * (ONE_RAW - 1),
        size(e.3) <= 4 * (ONE_RAW - 1) * a.3 + ONE_RAW * (ONE_RAW - 1),
        size(f.0) <= 4 * (ONE_RAW - 1) * v.0 + ONE_RAW * (ONE_RAW - 1),
        size(f.1) <= 4 * (ONE_RAW - 1) * v.1 + ONE_RAW * (ONE_RAW - 1),
        size(f.2) <= 4 * (ONE_RAW - 1) * v.2 + ONE_RAW * (ONE_RAW - 1),
        size(f.3) <= 4 * (ONE_RAW - 1) * v.3 + ONE_RAW * (ONE_RAW - 1),
    ensures
        ONE_RAW * size(left - right) < 4 * (a.0 + a.1 + a.2 + a.3 + v.0 + v.1 + v.2 + v.3) + 8
            * ONE_RAW,
{
    let spread = a.0 + a.1 + a.2 + a.3 + v.0 + v.1 + v.2 + v.3;
    let d = left - right;
    assert(ONE_RAW * (ONE_RAW * left) - ONE_RAW * (ONE_RAW * right) == ONE_RAW * (ONE_RAW * d))
        by (nonlinear_arith)
        requires
            d == left - right,
    ;
    assert(4 * (ONE_RAW - 1) * spread == 4 * (ONE_RAW - 1) * a.0 + 4 * (ONE_RAW - 1) * a.1 + 4 * (
    ONE_RAW - 1) * a.2 + 4 * (ONE_RAW - 1) * a.3 + 4 * (ONE_RAW - 1) * v.0 + 4 * (ONE_RAW - 1)
        * v.1 + 4 * (ONE_RAW - 1) * v.2 + 4 * (ONE_RAW - 1) * v.3) by (nonlinear_arith)
        requires
            spread == a.0 + a.1 + a.2 + a.3 + v.0 + v.1 + v.2 + v.3,
    ;
    assert(size(ONE_RAW * (ONE_RAW * d)) <= 4 * (ONE_RAW - 1) * spread + 8 * (ONE_RAW * (ONE_RAW
        - 1)));
    assert(size(ONE_RAW * (ONE_RAW * d)) == ONE_RAW * (ONE_RAW * size(d))) by (nonlinear_arith)
        requires
            ONE_RAW == 65536,
    ;
    assert(ONE_RAW * size(d) < 4 * spread + 8 * ONE_RAW) by (nonlinear_arith)
        requires
            ONE_RAW * (ONE_RAW * size(d)) <= 4 * (ONE_RAW - 1) * spread + 8 * (ONE_RAW * (ONE_RAW
                - 1)),
            spread >= 0,
            ONE_RAW == 65536,
    ;
}

/// What rounding loses in one term of a transform applied to a transformed
/// vertex.
proof fn lemma_row_error(
    v0: int,
    v1: int,
    v2: int,
    v3: int,
    b0: int,
    b1: int,
    b2: int,
    b3: int,
    a: int,
    s0: int,
    s1: int,
    s2: int,
    s3: int,
    l: int,
)
    requires
        -(ONE_RAW - 1) <= v0 * b0 - ONE_RAW * s0 <= ONE_RAW - 1,
        -(ONE_RAW - 1) <= v1 * b1 - ONE_RAW * s1 <= ONE_RAW - 1,
        -(ONE_RAW - 1) <= v2 * b2 - ONE_RAW * s2 <= ONE_RAW - 1,
        -(ONE_RAW - 1) <= v3 * b3 - ONE_RAW * s3 <= ONE_RAW - 1,
        -(ONE_RAW - 1) <= (s0 + s1 + s2 + s3) * a - ONE_RAW * l <= ONE_RAW - 1,
    ensures
        size(ONE_RAW * (ONE_RAW * l) - (v0 * b0 * a + v1 * b1 * a + v2 * b2 * a + v3 * b3 * a))
            <= 4 * (ONE_RAW - 1) * size(a) + ONE_RAW * (ONE_RAW - 1),
{
    let w = s0 + s1 + s2 + s3;
    let rho = (v0 * b0 - ONE_RAW * s0) + (v1 * b1 - ONE_RAW * s1) + (v2 * b2 - ONE_RAW * s2) + (v3
        * b3 - ONE_RAW * s3);
    let sigma = w * a - ONE_RAW * l;
    let main = v0 * b0 * a + v1 * b1 * a + v2 * b2 * a + v3 * b3 * a;
    assert(ONE_RAW * w == v0 * b0 + v1 * b1 + v2 * b2 + v3 * b3 - rho) by (nonlinear_arith)
        requires
            w == s0 + s1 + s2 + s3,
            rho == (v0 * b0 - ONE_RAW * s0) + (v1 * b1 - ONE_RAW * s1) + (v2 * b2 - ONE_RAW * s2)
                + (v3 * b3 - ONE_RAW * s3),
    ;
    assert(ONE_RAW * (ONE_RAW * l) == (ONE_RAW * w) * a - ONE_RAW * sigma) by (nonlinear_arith)
        requires
            sigma == w * a - ONE_RAW * l,
    ;
    lemma_distribute(a, v0 * b0, v1 * b1, v2 * b2, v3 * b3, rho);
    assert(a * (v0 * b0) == v0 * b0 * a) by (nonlinear_arith);
    assert(a * (v1 * b1) == v1 * b1 * a) by (nonlinear_arith);
    assert(a * (v2 * b2) == v2 * b2 * a) by (nonlinear_arith);
    assert(a * (v3 * b3) == v3 * b3 * a) by (nonlinear_arith);
    assert(a * rho == rho * a) by (nonlinear_arith);
    assert((ONE_RAW * w) * a == a * (ONE_RAW * w)) by (nonlinear_arith);
    assert(ONE_RAW * (ONE_RAW * l) - main == -(rho * a) - ONE_RAW * sigma);
    assert(size(rho * a) <= 4 * (ONE_RAW - 1) * size(a)) by (nonlinear_arith)
        requires
            -4 * (ONE_RAW - 1) <= rho <= 4 * (ONE_RAW - 1),
    ;
    assert(size(ONE_RAW * sigma) <= ONE_RAW * (ONE_RAW - 1)) by (nonlinear_arith)
        requires
            -(ONE_RAW - 1) <= sigma <= ONE_RAW - 1,
            ONE_RAW == 65536,
    ;
}

/// What rounding loses in one term of the product of two transforms
/// applied to a vertex.
proof fn lemma_column_error(
    v: int,
    a0: int,
    a1: int,
    a2: int,
    a3: int,
    b0: int,
    b1: int,
    b2: int,
    b3: int,
    p0: int,
    p1: int,
    p2: int,
    p3: int,
    t: int,
)
    requires
        -(ONE_RAW - 1) <= a0 * b0 - ONE_RAW * p0 <= ONE_RAW - 1,
        -(ONE_RAW - 1) <= a1 * b1 - ONE_RAW * p1 <= ONE_RAW - 1,
        -(ONE_RAW - 1) <= a2 * b2 - ONE_RAW * p2 <= ONE_RAW - 1,
        -(ONE_RAW - 1) <= a3 * b3 - ONE_RAW * p3 <= ONE_RAW - 1,
        -(ONE_RAW - 1) <= v * (p0 + p1 + p2 + p3) - ONE_RAW * t <= ONE_RAW - 1,
    ensures
        size(ONE_RAW * (ONE_RAW * t) - (v * b0 * a0 + v * b1 * a1 + v * b2 * a2 + v * b3 * a3))
            <= 4 * (ONE_RAW - 1) * size(v) + ONE_RAW * (ONE_RAW - 1),
{
    let c = p0 + p1 + p2 + p3;
    let pi = (a0 * b0 - ONE_RAW * p0) + (a1 * b1 - ONE_RAW * p1) + (a2 * b2 - ONE_RAW * p2) + (a3
        * b3 - ONE_RAW * p3);
    let tau = v * c - ONE_RAW * t;
    let main = v * b0 * a0 + v * b1 * a1 + v * b2 * a2 + v * b3 * a3;
    assert(ONE_RAW * c == a0 * b0 + a1 * b1 + a2 * b2 + a3 * b3 - pi) by (nonlinear_arith)
        requires
            c == p0 + p1 + p2 + p3,
            pi == (a0 * b0 - ONE_RAW * p0) + (a1 * b1 - ONE_RAW * p1) + (a2 * b2 - ONE_RAW * p2)
                + (a3 * b3 - ONE_RAW * p3),
    ;
    assert(ONE_RAW * (ONE_RAW * t) == v * (ONE_RAW * c) - ONE_RAW * tau) by (nonlinear_arith)
        requires
            tau == v * c - ONE_RAW * t,
    ;
    assert(v * (a0 * b0) == v * b0 * a0) by (nonlinear_arith);
    assert(v * (a1 * b1) == v * b1 * a1) by (nonlinear_arith);
    assert(v * (a2 * b2) == v * b2 * a2) by (nonlinear_arith);
    assert(v * (a3 * b3) == v * b3 * a3) by (nonlinear_arith);
    lemma_distribute(v, a0 * b0, a1 * b1, a2 * b2, a3 * b3, pi);
    assert(ONE_RAW * (ONE_RAW * t) - main == -(v * pi) - ONE_RAW * tau);
    assert(size(v * pi) <= 4 * (ONE_RAW - 1) * size(v)) by (nonlinear_arith)
        requires
            -4 * (ONE_RAW - 1) <= pi <= 4 * (ONE_RAW - 1),
    ;
    assert(size(ONE_RAW * tau) <= ONE_RAW * (ONE_RAW - 1)) by (nonlinear_arith)
        requires
            -(ONE_RAW - 1) <= tau <= ONE_RAW - 1,
            ONE_RAW == 65536,
    ;
}

/// Coordinate `k` of `first * v`, multiplied by an entry `a` of the second
/// transform and rounded to `l`: what the rounding loses.
proof fn lemma_first_then_entry_near(first: Modtrix, v: Vertex, k: int, a: int, l: int)
    requires
        0 <= k < 4,
        unsaturated_transform(first, v),
        l == scaled_product(transformed(first, v)[k]@, a),
    ensures
        size(
            ONE_RAW * (ONE_RAW * l) - (v[0]@ * first.store[k][0]@ * a + v[1]@
                * first.store[k][1]@ * a + v[2]@ * first.store[k][2]@ * a + v[3]@
                * first.store[k][3]@ * a),
        ) <= 4 * (ONE_RAW - 1) * size(a) + ONE_RAW * (ONE_RAW - 1),
{
    lemma_rounding_loss(v[0]@, first.store[k][0]@);
    lemma_rounding_loss(v[1]@, first.store[k][1]@);
    lemma_rounding_loss(v[2]@, first.store[k][2]@);
    lemma_rounding_loss(v[3]@, first.store[k][3]@);
    assert(fits(coordinate_sum(first, v, k)));
    assert(transformed(first, v)[k] == transformed_coordinate(first, v, k));
    assert(transformed(first, v)[k]@ == coordinate_sum(first, v, k));
    lemma_rounding_loss(transformed(first, v)[k]@, a);
    lemma_row_error(
        v[0]@,
        v[1]@,
        v[2]@,
        v[3]@,
        first.store[k][0]@,
        first.store[k][1]@,
        first.store[k][2]@,
        first.store[k][3]@,
        a,
        scaled_product(v[0]@, first.store[k][0]@),
        scaled_product(v[1]@, first.store[k][1]@),
        scaled_product(v[2]@, first.store[k][2]@),
        scaled_product(v[3]@, first.store[k][3]@),
        l,
    );
}

/// Coordinate `j` of `v`, multiplied by the entry `(i, j)` of the product of
/// the two transforms and rounded to `t`: what the rounding loses.
proof fn lemma_entry_of_product_near(
    second: Modtrix,
    first: Modtrix,
    i: int,
    j: int,
    v: int,
    t: int,
)
    requires
        0 <= i < 4,
        0 <= j < 4,
        unsaturated_product(second, first),
        t == scaled_product(v, product(second, first).store[i][j]@),
    ensures
        size(
            ONE_RAW * (ONE_RAW * t) - (v * first.store[0][j]@ * second.store[i][0]@ + v
                * first.store[1][j]@ * second.store[i][1]@ + v * first.store[2][j]@
                * second.store[i][2]@ + v * first.store[3][j]@ * second.store[i][3]@),
        ) <= 4 * (ONE_RAW - 1) * size(v) + ONE_RAW * (ONE_RAW - 1),
{
    lemma_rounding_loss(second.store[i][0]@, first.store[0][j]@);
    lemma_rounding_loss(second.store[i][1]@, first.store[1][j]@);
    lemma_rounding_loss(second.store[i][2]@, first.store[2][j]@);
    lemma_rounding_loss(second.store[i][3]@, first.store[3][j]@);
    assert(fits(entry_sum(second, first, i, j)));
    assert(product(second, first).store[i][j] == row_by_column(second, first, i, j));
    assert(product(second, first).store[i][j]@ == entry_sum(second, first, i, j));
    lemma_rounding_loss(v, product(second, first).store[i][j]@);
    lemma_column_error(
        v,
        second.store[i][0]@,
        second.store[i][1]@,
        second.store[i][2]@,
        second.store[i][3]@,
        first.store[0][j]@,
        first.store[1][j]@,
        first.store[2][j]@,
        first.store[3][j]@,
        scaled_product(second.store[i][0]@, first.store[0][j]@),
        scaled_product(second.store[i][1]@, first.store[1][j]@),
        scaled_product(second.store[i][2]@, first.store[2][j]@),
        scaled_product(second.store[i][3]@, first.store[3][j]@),
        t,
    );
}

/// Transforming a vertex by `first` and then by `second` comes to within
/// rounding of transforming it by the product of `second` and `first`,
/// where nothing saturates.
pub proof fn lemma_compose_vertex_near(first: Modtrix, second: Modtrix, v: Vertex, i: int)
    requires
        0 <= i < 4,
        unsaturated_composition(first, second, v),
    ensures
        ONE_RAW * size(
            transformed(second, transformed(first, v))[i]@ - transformed(
                product(second, first),
                v,
            )[i]@,
        ) < rounding_bound(second, v, i),
{
    let w = transformed(first, v);
    let c = product(second, first);
    let l0 = scaled_product(w[0]@, second.store[i][0]@);
    let l1 = scaled_product(w[1]@, second.store[i][1]@);
    let l2 = scaled_product(w[2]@, second.store[i][2]@);
    let l3 = scaled_product(w[3]@, second.store[i][3]@);
    lemma_first_then_entry_near(first, v, 0, second.store[i][0]@, l0);
    lemma_first_then_entry_near(first, v, 1, second.store[i][1]@, l1);
    lemma_first_then_entry_near(first, v, 2, second.store[i][2]@, l2);
    lemma_first_then_entry_near(first, v, 3, second.store[i][3]@, l3);
    let t0 = scaled_product(v[0]@, c.store[i][0]@);
    let t1 = scaled_product(v[1]@, c.store[i][1]@);
    let t2 = scaled_product(v[2]@, c.store[i][2]@);
    let t3 = scaled_product(v[3]@, c.store[i][3]@);
    lemma_entry_of_product_near(second, first, i, 0, v[0]@, t0);
    lemma_entry_of_product_near(second, first, i, 1, v[1]@, t1);
    lemma_entry_of_product_near(second, first, i, 2, v[2]@, t2);
    lemma_entry_of_product_near(second, first, i, 3, v[3]@, t3);
    let left = l0 + l1 + l2 + l3;
    let right = t0 + t1 + t2 + t3;
    assert(fits(coordinate_sum(second, w, i)));
    assert(fits(coordinate_sum(c, v, i)));
    assert(transformed(second, w)[i] == transformed_coordinate(second, w, i));
    assert(transformed(c, v)[i] == transformed_coordinate(c, v, i));
    assert(transformed(second, w)[i]@ == left);
    assert(transformed(c, v)[i]@ == right);
    // what each term comes to without rounding
    let m0 = v[0]@ * first.store[0][0]@ * second.store[i][0]@ + v[1]@ * first.store[0][1]@
        * second.store[i][0]@ + v[2]@ * first.store[0][2]@ * second.store[i][0]@ + v[3]@
        * first.store[0][3]@ * second.store[i][0]@;
    let m1 = v[0]@ * first.store[1][0]@ * second.store[i][1]@ + v[1]@ * first.store[1][1]@
        * second.store[i][1]@ + v[2]@ * first.store[1][2]@ * second.store[i][1]@ + v[3]@
        * first.store[1][3]@ * second.store[i][1]@;
    let m2 = v[0]@ * first.store[2][0]@ * second.store[i][2]@ + v[1]@ * first.store[2][1]@
        * second.store[i][2]@ + v[2]@ * first.store[2][2]@ * second.store[i][2]@ + v[3]@
        * first.store[2][3]@ * second.store[i][2]@;
    let m3 = v[0]@ * first.store[3][0]@ * second.store[i][3]@ + v[1]@ * first.store[3][1]@
        * second.store[i][3]@ + v[2]@ * first.store[3][2]@ * second.store[i][3]@ + v[3]@
        * first.store[3][3]@ * second.store[i][3]@;
    let n0 = v[0]@ * first.store[0][0]@ * second.store[i][0]@ + v[0]@ * first.store[1][0]@
        * second.store[i][1]@ + v[0]@ * first.store[2][0]@ * second.store[i][2]@ + v[0]@
        * first.store[3][0]@ * second.store[i][3]@;
    let n1 = v[1]@ * first.store[0][1]@ * second.store[i][0]@ + v[1]@ * first.store[1][1]@
        * second.store[i][1]@ + v[1]@ * first.store[2][1]@ * second.store[i][2]@ + v[1]@
        * first.store[3][1]@ * second.store[i][3]@;
    let n2 = v[2]@ * first.store[0][2]@ * second.store[i][0]@ + v[2]@ * first.store[1][2]@
        * second.store[i][1]@ + v[2]@ * first.store[2][2]@ * second.store[i][2]@ + v[2]@
        * first.store[3][2]@ * second.store[i][3]@;
    let n3 = v[3]@ * first.store[0][3]@ * second.store[i][0]@ + v[3]@ * first.store[1][3]@
        * second.store[i][1]@ + v[3]@ * first.store[2][3]@ * second.store[i][2]@ + v[3]@
        * first.store[3][3]@ * second.store[i][3]@;
    assert(m0 + m1 + m2 + m3 == n0 + n1 + n2 + n3);
    assert(ONE_RAW * (ONE_RAW * left) == ONE_RAW * (ONE_RAW * l0) + ONE_RAW * (ONE_RAW * l1)
        + ONE_RAW * (ONE_RAW * l2) + ONE_RAW * (ONE_RAW * l3)) by (nonlinear_arith)
        requires
            left == l0 + l1 + l2 + l3,
    ;
    assert(ONE_RAW * (ONE_RAW * right) == ONE_RAW * (ONE_RAW * t0) + ONE_RAW * (ONE_RAW * t1)
        + ONE_RAW * (ONE_RAW * t2) + ONE_RAW * (ONE_RAW * t3)) by (nonlinear_arith)
        requires
            right == t0 + t1 + t2 + t3,
    ;
    lemma_combine(
        left,
        right,
        (
            ONE_RAW * (ONE_RAW * l0) - m0,
            ONE_RAW * (ONE_RAW * l1) - m1,
            ONE_RAW * (ONE_RAW * l2) - m2,
            ONE_RAW * (ONE_RAW * l3) - m3,
        ),
        (
            ONE_RAW * (ONE_RAW * t0) - n0,
            ONE_RAW * (ONE_RAW * t1) - n1,
            ONE_RAW * (ONE_RAW * t2) - n2,
            ONE_RAW * (ONE_RAW * t3) - n3,
        ),
        (
            size(second.store[i][0]@),
            size(second.store[i][1]@),
            size(second.store[i][2]@),
            size(second.store[i][3]@),
        ),
        (size(v[0]@), size(v[1]@), size(v[2]@), size(v[3]@)),
    );
}

/// Whether every coordinate of `twice` lies within the rounding bound of
/// that of `once`, `v` being the vertex that both come from.
pub open spec fn within_rounding(twice: Vertex, once: Vertex, second: Modtrix, v: Vertex) -> bool {
    forall|c: int|
        0 <= c < 4 ==> ONE_RAW * size(twice[c]@ - once[c]@) < #[trigger] rounding_bound(
            second,
            v,
            c,
        )
}

/// Whether every vertex of the space can be transformed by `first`, then by
/// `second`, and by their product, without saturation.
pub open spec fn unsaturated_on<T: Color>(s: SpaceView<T>, first: Modtrix, second: Modtrix) -> bool {
    &&& forall|i: int|
        0 <= i < s.lines.len() ==> unsaturated_composition(
            first,
            second,
            (#[trigger] s.lines[i]).0,
        ) && unsaturated_composition(first, second, s.lines[i].1)
    &&& forall|i: int|
        0 <= i < s.triangles.len() ==> unsaturated_composition(
            first,
            second,
            (#[trigger] s.triangles[i]).0,
        ) && unsaturated_composition(first, second, s.triangles[i].1) && unsaturated_composition(
            first,
            second,
            s.triangles[i].2,
        )
}

/// A vertex transformed by `first` and then by `second` lies within
/// rounding of the vertex transformed by their product.
pub proof fn lemma_vertex_within_rounding(first: Modtrix, second: Modtrix, v: Vertex)
    requires
        unsaturated_composition(first, second, v),
    ensures
        within_rounding(
            transformed(second, transformed(first, v)),
            transformed(product(second, first), v),
            second,
            v,
        ),
{
    lemma_compose_vertex_near(first, second, v, 0);
    lemma_compose_vertex_near(first, second, v, 1);
    lemma_compose_vertex_near(first, second, v, 2);
    lemma_compose_vertex_near(first, second, v, 3);
}

/// Applying `first` and then `second` to a space comes to within rounding
/// of applying the product of `second` and `first` once, where nothing
/// saturates: the two spaces hold as many lines and triangles, every
/// vertex of the one lies within the rounding bound of its counterpart in
/// the other, and everything else is the same.
pub proof fn lemma_apply_nearly_composes<T: Color>(s: SpaceView<T>, first: Modtrix, second: Modtrix)
    requires
        unsaturated_on(s, first, second),
    ensures
        ({
            let twice = s.apply(first).apply(second);
            let once = s.apply(product(second, first));
            &&& twice == (SpaceView { lines: twice.lines, triangles: twice.triangles, ..once })
            &&& twice.lines.len() == once.lines.len()
            &&& twice.triangles.len() == once.triangles.len()
            &&& forall|i: int|
                0 <= i < s.lines.len() ==> within_rounding(
                    twice.lines[i].0,
                    once.lines[i].0,
                    second,
                    (#[trigger] s.lines[i]).0,
                ) && within_rounding(twice.lines[i].1, once.lines[i].1, second, s.lines[i].1)
            &&& forall|i: int|
                0 <= i < s.triangles.len() ==> within_rounding(
                    twice.triangles[i].0,
                    once.triangles[i].0,
                    second,
                    (#[trigger] s.triangles[i]).0,
                ) && within_rounding(
                    twice.triangles[i].1,
                    once.triangles[i].1,
                    second,
                    s.triangles[i].1,
                ) && within_rounding(
                    twice.triangles[i].2,
                    once.triangles[i].2,
                    second,
                    s.triangles[i].2,
                )
        }),
{
    let twice = s.apply(first).apply(second);
    let once = s.apply(product(second, first));
    assert forall|i: int| 0 <= i < s.lines.len() implies within_rounding(
        twice.lines[i].0,
        once.lines[i].0,
        second,
        (#[trigger] s.lines[i]).0,
    ) && within_rounding(twice.lines[i].1, once.lines[i].1, second, s.lines[i].1) by {
        lemma_vertex_within_rounding(first, second, s.lines[i].0);
        lemma_vertex_within_rounding(first, second, s.lines[i].1);
        assert(s.apply(first).lines[i] == transformed_line(first, s.lines[i]));
    }
    assert forall|i: int| 0 <= i < s.triangles.len() implies within_rounding(
        twice.triangles[i].0,
        once.triangles[i].0,
        second,
        (#[trigger] s.triangles[i]).0,
    ) && within_rounding(twice.triangles[i].1, once.triangles[i].1, second, s.triangles[i].1)
        && within_rounding(
        twice.triangles[i].2,
        once.triangles[i].2,
        second,
        s.triangles[i].2,
    ) by {
        lemma_vertex_within_rounding(first, second, s.triangles[i].0);
        lemma_vertex_within_rounding(first, second, s.triangles[i].1);
        lemma_vertex_within_rounding(first, second, s.triangles[i].2);
        assert(s.apply(first).triangles[i] == transformed_triangle(first, s.triangles[i]));
    }
}

} // verus!
