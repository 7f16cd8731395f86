//! Shapes: boxes, spheres, tori and curves, added to a space as triangles
//! and lines.
use crate::scalar::{clamp64, clamp_wide, div_wide, trunc_div, Scalar, ONE_RAW};
use crate::screen::color::Color;
use crate::space::geometry::{homogeneous, Space, SpaceView, Vertex};
use crate::space::Point;
use crate::trig::{cosine, cosine_raw, sine, sine_raw, TURN_RAW};
use vstd::prelude::*;

verus! {

/// The number of segments that a curve is cut into, and of steps around
/// each circle of a sphere or torus.
pub const RESOLUTION: usize = 20;

/// The angle that is `numerator / denominator` of a full turn, in degrees.
pub open spec fn turn_fraction(numerator: int, denominator: int) -> Scalar {
    Scalar { raw: clamp64(trunc_div(numerator * TURN_RAW, denominator)) as i64 }
}

/// The sine of `angle` degrees.
pub open spec fn sin_of(angle: Scalar) -> Scalar {
    Scalar { raw: sine_raw(angle@) as i64 }
}

/// The cosine of `angle` degrees.
pub open spec fn cos_of(angle: Scalar) -> Scalar {
    Scalar { raw: cosine_raw(angle@) as i64 }
}

/// The triangle with corners `p`, `q`, `r` as it is stored.
pub open spec fn triangle(p: Point, q: Point, r: Point) -> (Vertex, Vertex, Vertex) {
    (homogeneous(p), homogeneous(q), homogeneous(r))
}

/// The twelve triangles of the box whose front top left corner is
/// `(x, y, z)` and which is `w` wide, `h` high and `d` deep: two for each
/// of the front, right, back, left, top and bottom face.
pub open spec fn box_triangles(x: Scalar, y: Scalar, z: Scalar, w: Scalar, h: Scalar, d: Scalar) -> Seq<
    (Vertex, Vertex, Vertex),
> {
    let x1 = x.plus(w);
    let y1 = y.minus(h);
    let z1 = z.minus(d);
    seq![
        triangle((x, y, z), (x, y1, z), (x1, y1, z)),
        triangle((x, y, z), (x1, y1, z), (x1, y, z)),
        triangle((x1, y, z), (x1, y1, z), (x1, y1, z1)),
        triangle((x1, y, z), (x1, y1, z1), (x1, y, z1)),
        triangle((x, y, z1), (x1, y1, z1), (x, y1, z1)),
        triangle((x1, y, z1), (x1, y1, z1), (x, y, z1)),
        triangle((x, y, z), (x, y1, z1), (x, y1, z)),
        triangle((x, y, z), (x, y, z1), (x, y1, z1)),
        triangle((x1, y, z1), (x, y, z), (x1, y, z)),
        triangle((x1, y, z1), (x, y, z1), (x, y, z)),
        triangle((x1, y1, z), (x, y1, z), (x1, y1, z1)),
        triangle((x, y1, z), (x, y1, z1), (x1, y1, z1)),
    ]
}

/// Adds a box to the space, given its front top left corner `(x, y, z)`
/// and its width, height and depth.
pub fn add_box<T: Color>(
    x: Scalar,
    y: Scalar,
    z: Scalar,
    w: Scalar,
    h: Scalar,
    d: Scalar,
    edges: &mut Space<T>,
)
    ensures
        final(edges)@ == (SpaceView {
            triangles: old(edges)@.triangles + box_triangles(x, y, z, w, h, d),
            ..old(edges)@
        }),
{
    let x1: Scalar = x.add(w);
    let y1: Scalar = y.sub(h);
    let z1: Scalar = z.sub(d);
    // front face
    edges.add_tri((x, y, z), (x, y1, z), (x1, y1, z));
    edges.add_tri((x, y, z), (x1, y1, z), (x1, y, z));
    // right face
    edges.add_tri((x1, y, z), (x1, y1, z), (x1, y1, z1));
    edges.add_tri((x1, y, z), (x1, y1, z1), (x1, y, z1));
    // back face
    edges.add_tri((x, y, z1), (x1, y1, z1), (x, y1, z1));
    edges.add_tri((x1, y, z1), (x1, y1, z1), (x, y, z1));
    // left face
    edges.add_tri((x, y, z), (x, y1, z1), (x, y1, z));
    edges.add_tri((x, y, z), (x, y, z1), (x, y1, z1));
    // top face
    edges.add_tri((x1, y, z1), (x, y, z), (x1, y, z));
    edges.add_tri((x1, y, z1), (x, y, z1), (x, y, z));
    // bottom face
    edges.add_tri((x1, y1, z), (x, y1, z), (x1, y1, z1));
    edges.add_tri((x, y1, z), (x, y1, z1), (x1, y1, z1));
    assert(final(edges)@.triangles =~= old(edges)@.triangles + box_triangles(x, y, z, w, h, d));
}

/// The angle that is `numerator / denominator` of a full turn, saturated.
pub fn angle_of_turn(numerator: usize, denominator: usize) -> (a: Scalar)
    requires
        denominator > 0,
    ensures
        a == turn_fraction(numerator as int, denominator as int),
{
    proof {
        assert(0 <= numerator * TURN_RAW <= 0xffff_ffff_ffff_ffff * 23592960) by (nonlinear_arith)
            requires
                0 <= numerator <= 0xffff_ffff_ffff_ffff,
                TURN_RAW == 23592960,
        ;
    }
    let wide: i128 = (numerator as i128) * (TURN_RAW as i128);
    Scalar { raw: clamp_wide(div_wide(wide, denominator as i128)) }
}

/// The product of three scalars, taken from the left: `(a * b) * c`.
pub open spec fn product3(a: Scalar, b: Scalar, c: Scalar) -> Scalar {
    a.times(b).times(c)
}

/// The point of the sphere with center `(x, y, z)` and radius `r` that
/// lies `t` steps of nineteen down the half circle from pole to pole and
/// `p` steps of nineteen around the axis.
pub open spec fn sphere_point(x: Scalar, y: Scalar, z: Scalar, r: Scalar, p: int, t: int) -> Point {
    let phi = turn_fraction(p, RESOLUTION as int - 1);
    let theta = turn_fraction(t, 2 * (RESOLUTION as int - 1));
    (
        r.times(cos_of(theta)).plus(x),
        product3(r, sin_of(theta), cos_of(phi)).plus(y),
        product3(r, sin_of(theta), sin_of(phi)).plus(z),
    )
}

/// The points of a sphere, half circle after half circle.
pub open spec fn sphere_points_spec(x: Scalar, y: Scalar, z: Scalar, r: Scalar) -> Seq<Point> {
    Seq::new(
        (RESOLUTION * RESOLUTION) as nat,
        |k: int| sphere_point(x, y, z, r, k / RESOLUTION as int, k % RESOLUTION as int),
    )
}

/// The point of the torus around `(x, y, z)` whose tube has radius `r1`
/// and whose tube's center runs at distance `r2` from the axis, `t` steps
/// of twenty around the tube and `p` steps of twenty around the axis.
pub open spec fn torus_point(
    x: Scalar,
    y: Scalar,
    z: Scalar,
    r1: Scalar,
    r2: Scalar,
    p: int,
    t: int,
) -> Point {
    let phi = turn_fraction(p, RESOLUTION as int);
    let theta = turn_fraction(t, RESOLUTION as int);
    let reach = r1.times(cos_of(theta)).plus(r2);
    (
        cos_of(phi).times(reach).plus(x),
        r1.times(sin_of(theta)).plus(y),
        sin_of(phi).times(reach).plus(z),
    )
}

/// The points of a torus, circle of the tube after circle of the tube.
pub open spec fn torus_points_spec(x: Scalar, y: Scalar, z: Scalar, r1: Scalar, r2: Scalar) -> Seq<
    Point,
> {
    Seq::new(
        (RESOLUTION * RESOLUTION) as nat,
        |k: int| torus_point(x, y, z, r1, r2, k / RESOLUTION as int, k % RESOLUTION as int),
    )
}

/// The triangles between step `j` and step `j + 1` of half circle `i` and
/// of the half circle after it. At the two poles the quadrilateral between
/// them shrinks to one triangle.
pub open spec fn sphere_cell(points: Seq<Point>, i: int, j: int) -> Seq<(Vertex, Vertex, Vertex)> {
    let n = points.len() as int;
    let o1 = (j + i * RESOLUTION) % n;
    let o2 = (j + 1 + i * RESOLUTION) % n;
    let o3 = (j + RESOLUTION + 1 + i * RESOLUTION) % n;
    let o4 = (j + RESOLUTION + i * RESOLUTION) % n;
    if j == 0 {
        seq![triangle(points[o1], points[o2], points[o3])]
    } else if j + 1 == RESOLUTION - 1 {
        seq![triangle(points[o1], points[o3], points[o4])]
    } else {
        seq![
            triangle(points[o1], points[o2], points[o3]),
            triangle(points[o1], points[o3], points[o4]),
        ]
    }
}

/// The triangles of the first `cells` cells of a sphere, the cells counted
/// half circle after half circle, nineteen to each.
pub open spec fn sphere_mesh(points: Seq<Point>, cells: nat) -> Seq<(Vertex, Vertex, Vertex)>
    decreases cells,
{
    if cells == 0 {
        Seq::empty()
    } else {
        sphere_mesh(points, (cells - 1) as nat) + sphere_cell(
            points,
            (cells - 1) / (RESOLUTION as int - 1),
            (cells - 1) % (RESOLUTION as int - 1),
        )
    }
}

/// The two triangles between step `j` and the step after it of circle `i`
/// and of the circle after it.
pub open spec fn torus_cell(points: Seq<Point>, i: int, j: int) -> Seq<(Vertex, Vertex, Vertex)> {
    let n = points.len() as int;
    let o1 = (j + i * RESOLUTION) % n;
    let o2 = ((j + 1) % RESOLUTION as int + i * RESOLUTION) % n;
    let o3 = ((j + 1) % RESOLUTION as int + RESOLUTION + i * RESOLUTION) % n;
    let o4 = (j + RESOLUTION + i * RESOLUTION) % n;
    seq![
        triangle(points[o1], points[o2], points[o3]),
        triangle(points[o1], points[o3], points[o4]),
    ]
}

/// The triangles of the first `cells` cells of a torus, the cells counted
/// circle after circle, twenty to each.
pub open spec fn torus_mesh(points: Seq<Point>, cells: nat) -> Seq<(Vertex, Vertex, Vertex)>
    decreases cells,
{
    if cells == 0 {
        Seq::empty()
    } else {
        torus_mesh(points, (cells - 1) as nat) + torus_cell(
            points,
            (cells - 1) / RESOLUTION as int,
            (cells - 1) % RESOLUTION as int,
        )
    }
}

/// The points on the sphere with center `(x, y, z)` and radius `r`.
pub fn sphere_points(x: Scalar, y: Scalar, z: Scalar, r: Scalar) -> (out: Vec<Point>)
    ensures
        out@ == sphere_points_spec(x, y, z, r),
{
    let mut out: Vec<Point> = Vec::with_capacity(RESOLUTION * RESOLUTION);
    let mut k: usize = 0;
    while k < RESOLUTION * RESOLUTION
        invariant
            k <= RESOLUTION * RESOLUTION,
            out@.len() == k,
            forall|i: int| 0 <= i < k ==> out@[i] == sphere_points_spec(x, y, z, r)[i],
        decreases RESOLUTION * RESOLUTION - k,
    {
        let p: usize = k / RESOLUTION;
        let t: usize = k % RESOLUTION;
        let phi: Scalar = angle_of_turn(p, RESOLUTION - 1);
        let theta: Scalar = angle_of_turn(t, 2 * (RESOLUTION - 1));
        let px: Scalar = r.mul(cosine(theta)).add(x);
        let py: Scalar = r.mul(sine(theta)).mul(cosine(phi)).add(y);
        let pz: Scalar = r.mul(sine(theta)).mul(sine(phi)).add(z);
        proof {
            crate::trig::lemma_sine_bounds(theta@);
            crate::trig::lemma_sine_bounds(phi@);
        }
        out.push((px, py, pz));
        k = k + 1;
    }
    assert(out@ =~= sphere_points_spec(x, y, z, r));
    out
}

/// Adds the triangles between the points of a sphere to the space.
fn add_sphere_mesh<T: Color>(p: &Vec<Point>, edges: &mut Space<T>)
    requires
        p@.len() == RESOLUTION * RESOLUTION,
    ensures
        final(edges)@ == (SpaceView {
            triangles: old(edges)@.triangles + sphere_mesh(
                p@,
                (RESOLUTION * (RESOLUTION - 1)) as nat,
            ),
            ..old(edges)@
        }),
{
    let n: usize = p.len();
    let mut k: usize = 0;
    assert(old(edges)@.triangles + sphere_mesh(p@, 0) =~= old(edges)@.triangles);
    while k < RESOLUTION * (RESOLUTION - 1)
        invariant
            k <= RESOLUTION * (RESOLUTION - 1),
            n == RESOLUTION * RESOLUTION,
            n == p@.len(),
            edges@ == (SpaceView {
                triangles: old(edges)@.triangles + sphere_mesh(p@, k as nat),
                ..old(edges)@
            }),
        decreases RESOLUTION * (RESOLUTION - 1) - k,
    {
        let i: usize = k / (RESOLUTION - 1);
        let j: usize = k % (RESOLUTION - 1);
        let o1: usize = (j + i * RESOLUTION) % n;
        let o2: usize = (j + 1 + i * RESOLUTION) % n;
        let o3: usize = (j + RESOLUTION + 1 + i * RESOLUTION) % n;
        let o4: usize = (j + RESOLUTION + i * RESOLUTION) % n;
        let ghost before = edges@.triangles;
        let ghost cell = sphere_cell(p@, i as int, j as int);
        if j == 0 {
            edges.add_tri(p[o1], p[o2], p[o3]);
            assert(cell =~= seq![triangle(p@[o1 as int], p@[o2 as int], p@[o3 as int])]);
            assert(edges@.triangles =~= before + cell);
        } else if j + 1 == RESOLUTION - 1 {
            edges.add_tri(p[o1], p[o3], p[o4]);
            assert(cell =~= seq![triangle(p@[o1 as int], p@[o3 as int], p@[o4 as int])]);
            assert(edges@.triangles =~= before + cell);
        } else {
            edges.add_tri(p[o1], p[o2], p[o3]);
            edges.add_tri(p[o1], p[o3], p[o4]);
            assert(cell =~= seq![
                triangle(p@[o1 as int], p@[o2 as int], p@[o3 as int]),
                triangle(p@[o1 as int], p@[o3 as int], p@[o4 as int]),
            ]);
            assert(edges@.triangles =~= before + cell);
        }
        proof {
            assert(sphere_mesh(p@, (k + 1) as nat) == sphere_mesh(p@, k as nat) + cell);
            assert(old(edges)@.triangles + (sphere_mesh(p@, k as nat) + cell) =~= (old(
                edges,
            )@.triangles + sphere_mesh(p@, k as nat)) + cell);
        }
        k = k + 1;
    }
}

/// Adds a sphere to the space, given its center `(x, y, z)` and its
/// radius `r`.
pub fn add_sphere<T: Color>(x: Scalar, y: Scalar, z: Scalar, r: Scalar, edges: &mut Space<T>)
    ensures
        final(edges)@ == (SpaceView {
            triangles: old(edges)@.triangles + sphere_mesh(
                sphere_points_spec(x, y, z, r),
                (RESOLUTION * (RESOLUTION - 1)) as nat,
            ),
            ..old(edges)@
        }),
{
    let p: Vec<Point> = sphere_points(x, y, z, r);
    add_sphere_mesh(&p, edges);
}

/// The points on the torus around `(x, y, z)` whose tube has radius `r1`
/// and whose tube's center runs at distance `r2` from the axis.
pub fn torus_points(x: Scalar, y: Scalar, z: Scalar, r1: Scalar, r2: Scalar) -> (out: Vec<Point>)
    ensures
        out@ == torus_points_spec(x, y, z, r1, r2),
{
    let mut out: Vec<Point> = Vec::with_capacity(RESOLUTION * RESOLUTION);
    let mut k: usize = 0;
    while k < RESOLUTION * RESOLUTION
        invariant
            k <= RESOLUTION * RESOLUTION,
            out@.len() == k,
            forall|i: int| 0 <= i < k ==> out@[i] == torus_points_spec(x, y, z, r1, r2)[i],
        decreases RESOLUTION * RESOLUTION - k,
    {
        let p: usize = k / RESOLUTION;
        let t: usize = k % RESOLUTION;
        let phi: Scalar = angle_of_turn(p, RESOLUTION);
        let theta: Scalar = angle_of_turn(t, RESOLUTION);
        let reach: Scalar = r1.mul(cosine(theta)).add(r2);
        let px: Scalar = cosine(phi).mul(reach).add(x);
        let py: Scalar = r1.mul(sine(theta)).add(y);
        let pz: Scalar = sine(phi).mul(reach).add(z);
        proof {
            crate::trig::lemma_sine_bounds(theta@);
            crate::trig::lemma_sine_bounds(phi@);
        }
        out.push((px, py, pz));
        k = k + 1;
    }
    assert(out@ =~= torus_points_spec(x, y, z, r1, r2));
    out
}

/// Adds the triangles between the points of a torus to the space.
fn add_torus_mesh<T: Color>(p: &Vec<Point>, edges: &mut Space<T>)
    requires
        p@.len() == RESOLUTION * RESOLUTION,
    ensures
        final(edges)@ == (SpaceView {
            triangles: old(edges)@.triangles + torus_mesh(p@, (RESOLUTION * RESOLUTION) as nat),
            ..old(edges)@
        }),
{
    let n: usize = p.len();
    let mut k: usize = 0;
    assert(old(edges)@.triangles + torus_mesh(p@, 0) =~= old(edges)@.triangles);
    while k < RESOLUTION * RESOLUTION
        invariant
            k <= RESOLUTION * RESOLUTION,
            n == RESOLUTION * RESOLUTION,
            n == p@.len(),
            edges@ == (SpaceView {
                triangles: old(edges)@.triangles + torus_mesh(p@, k as nat),
                ..old(edges)@
            }),
        decreases RESOLUTION * RESOLUTION - k,
    {
        let i: usize = k / RESOLUTION;
        let j: usize = k % RESOLUTION;
        let o1: usize = (j + i * RESOLUTION) % n;
        let o2: usize = ((j + 1) % RESOLUTION + i * RESOLUTION) % n;
        let o3: usize = ((j + 1) % RESOLUTION + RESOLUTION + i * RESOLUTION) % n;
        let o4: usize = (j + RESOLUTION + i * RESOLUTION) % n;
        let ghost before = edges@.triangles;
        let ghost cell = torus_cell(p@, i as int, j as int);
        edges.add_tri(p[o1], p[o2], p[o3]);
        edges.add_tri(p[o1], p[o3], p[o4]);
        proof {
            assert(cell =~= seq![
                triangle(p@[o1 as int], p@[o2 as int], p@[o3 as int]),
                triangle(p@[o1 as int], p@[o3 as int], p@[o4 as int]),
            ]);
            assert(edges@.triangles =~= before + cell);
            assert(torus_mesh(p@, (k + 1) as nat) == torus_mesh(p@, k as nat) + cell);
            assert(old(edges)@.triangles + (torus_mesh(p@, k as nat) + cell) =~= (old(
                edges,
            )@.triangles + torus_mesh(p@, k as nat)) + cell);
        }
        k = k + 1;
    }
}

/// Adds a torus to the space, given its center `(x, y, z)`, the radius
/// `r1` of its tube and the distance `r2` of the tube's center from the
/// axis.
pub fn add_torus<T: Color>(
    x: Scalar,
    y: Scalar,
    z: Scalar,
    r1: Scalar,
    r2: Scalar,
    edges: &mut Space<T>,
)
    ensures
        final(edges)@ == (SpaceView {
            triangles: old(edges)@.triangles + torus_mesh(
                torus_points_spec(x, y, z, r1, r2),
                (RESOLUTION * RESOLUTION) as nat,
            ),
            ..old(edges)@
        }),
{
    let p: Vec<Point> = torus_points(x, y, z, r1, r2);
    add_torus_mesh(&p, edges);
}

/// The point of the circle around `(cx, cy, cz)` with radius `r`, parallel
/// to the screen, `t` steps of twenty around it.
pub open spec fn circle_point(cx: Scalar, cy: Scalar, cz: Scalar, r: Scalar, t: int) -> Point {
    let angle = turn_fraction(t, RESOLUTION as int);
    (r.times(cos_of(angle)).plus(cx), r.times(sin_of(angle)).plus(cy), cz)
}

/// The first `n` segments of a curve whose `t`-th point is `point(t)`.
pub open spec fn segments(point: spec_fn(int) -> Point, n: nat) -> Seq<(Vertex, Vertex)> {
    Seq::new(n, |t: int| (homogeneous(point(t)), homogeneous(point(t + 1))))
}

/// The point of a circle `t` steps around it.
fn circle_point_exec(cx: Scalar, cy: Scalar, cz: Scalar, r: Scalar, t: usize) -> (p: Point)
    requires
        t <= RESOLUTION,
    ensures
        p == circle_point(cx, cy, cz, r, t as int),
{
    let angle: Scalar = angle_of_turn(t, RESOLUTION);
    proof {
        crate::trig::lemma_sine_bounds(angle@);
    }
    (r.mul(cosine(angle)).add(cx), r.mul(sine(angle)).add(cy), cz)
}

/// Adds a circle to the space, given its center `(cx, cy, cz)` and its
/// radius `r`.
pub fn add_circle<T: Color>(cx: Scalar, cy: Scalar, cz: Scalar, r: Scalar, edges: &mut Space<T>)
    ensures
        final(edges)@ == (SpaceView {
            lines: old(edges)@.lines + segments(
                |t: int| circle_point(cx, cy, cz, r, t),
                RESOLUTION as nat,
            ),
            ..old(edges)@
        }),
{
    let ghost point = |t: int| circle_point(cx, cy, cz, r, t);
    let mut t: usize = 0;
    assert(old(edges)@.lines + segments(point, 0) =~= old(edges)@.lines);
    while t < RESOLUTION
        invariant
            t <= RESOLUTION,
            point == (|t: int| circle_point(cx, cy, cz, r, t)),
            edges@ == (SpaceView {
                lines: old(edges)@.lines + segments(point, t as nat),
                ..old(edges)@
            }),
        decreases RESOLUTION - t,
    {
        let p0: Point = circle_point_exec(cx, cy, cz, r, t);
        let p1: Point = circle_point_exec(cx, cy, cz, r, t + 1);
        edges.add_line(p0, p1);
        proof {
            assert(edges@.lines =~= old(edges)@.lines + segments(point, (t + 1) as nat));
        }
        t = t + 1;
    }
}

/// `k0 * p0 + k1 * p1 + k2 * p2 + k3 * p3` for whole numbers `k`,
/// saturated.
pub open spec fn blend(
    k0: int,
    p0: Scalar,
    k1: int,
    p1: Scalar,
    k2: int,
    p2: Scalar,
    k3: int,
    p3: Scalar,
) -> Scalar {
    Scalar { raw: clamp64(k0 * p0@ + k1 * p1@ + k2 * p2@ + k3 * p3@) as i64 }
}

/// The value at `x` of the cubic with coefficients `a`, `b`, `c`, `d`:
/// `a x^3 + b x^2 + c x + d`.
pub open spec fn cubic(a: Scalar, b: Scalar, c: Scalar, d: Scalar, x: Scalar) -> Scalar {
    a.times(x).times(x).times(x).plus(b.times(x).times(x)).plus(c.times(x)).plus(d)
}

/// The parameter of the `t`-th point of a curve: `t / 20`.
pub open spec fn parameter(t: int) -> Scalar {
    Scalar { raw: clamp64(trunc_div(t * ONE_RAW, RESOLUTION as int)) as i64 }
}

/// The coefficients of the Hermite cubic that starts at `p0` with slope
/// `r0` and ends at `p1` with slope `r1`.
pub open spec fn hermite_coefficients(p0: Scalar, p1: Scalar, r0: Scalar, r1: Scalar) -> (
    Scalar,
    Scalar,
    Scalar,
    Scalar,
) {
    (blend(2, p0, -2, p1, 1, r0, 1, r1), blend(-3, p0, 3, p1, -2, r0, -1, r1), r0, p0)
}

/// The coefficients of the Bezier cubic from `p0` to `p3` with the control
/// values `p1` and `p2`.
pub open spec fn bezier_coefficients(p0: Scalar, p1: Scalar, p2: Scalar, p3: Scalar) -> (
    Scalar,
    Scalar,
    Scalar,
    Scalar,
) {
    (
        blend(-1, p0, 3, p1, -3, p2, 1, p3),
        blend(3, p0, -6, p1, 3, p2, 0, p3),
        blend(-3, p0, 3, p1, 0, p2, 0, p3),
        p0,
    )
}

/// The `t`-th point of the curve in the plane `z = 0` whose x and y run
/// along the cubics with the coefficients `cx` and `cy`.
pub open spec fn curve_point(
    cx: (Scalar, Scalar, Scalar, Scalar),
    cy: (Scalar, Scalar, Scalar, Scalar),
    t: int,
) -> Point {
    (
        cubic(cx.0, cx.1, cx.2, cx.3, parameter(t)),
        cubic(cy.0, cy.1, cy.2, cy.3, parameter(t)),
        Scalar { raw: 0 },
    )
}

/// `k0 * p0 + k1 * p1 + k2 * p2 + k3 * p3`, saturated.
fn blend_exec(
    k0: i8,
    p0: Scalar,
    k1: i8,
    p1: Scalar,
    k2: i8,
    p2: Scalar,
    k3: i8,
    p3: Scalar,
) -> (r: Scalar)
    ensures
        r == blend(k0 as int, p0, k1 as int, p1, k2 as int, p2, k3 as int, p3),
{
    proof {
        crate::scalar::lemma_product_bounds(k0 as int, p0@);
        crate::scalar::lemma_product_bounds(k1 as int, p1@);
        crate::scalar::lemma_product_bounds(k2 as int, p2@);
        crate::scalar::lemma_product_bounds(k3 as int, p3@);
        assert(-128 * 0x8000_0000_0000_0000 <= k0 * p0@ <= 128 * 0x8000_0000_0000_0000)
            by (nonlinear_arith)
            requires
                -128 <= k0 <= 127,
                -0x8000_0000_0000_0000 <= p0@ <= 0x7fff_ffff_ffff_ffff,
        ;
        assert(-128 * 0x8000_0000_0000_0000 <= k1 * p1@ <= 128 * 0x8000_0000_0000_0000)
            by (nonlinear_arith)
            requires
                -128 <= k1 <= 127,
                -0x8000_0000_0000_0000 <= p1@ <= 0x7fff_ffff_ffff_ffff,
        ;
        assert(-128 * 0x8000_0000_0000_0000 <= k2 * p2@ <= 128 * 0x8000_0000_0000_0000)
            by (nonlinear_arith)
            requires
                -128 <= k2 <= 127,
                -0x8000_0000_0000_0000 <= p2@ <= 0x7fff_ffff_ffff_ffff,
        ;
        assert(-128 * 0x8000_0000_0000_0000 <= k3 * p3@ <= 128 * 0x8000_0000_0000_0000)
            by (nonlinear_arith)
            requires
                -128 <= k3 <= 127,
                -0x8000_0000_0000_0000 <= p3@ <= 0x7fff_ffff_ffff_ffff,
        ;
    }
    let sum: i128 = (k0 as i128) * (p0.raw as i128) + (k1 as i128) * (p1.raw as i128) + (
    k2 as i128) * (p2.raw as i128) + (k3 as i128) * (p3.raw as i128);
    Scalar { raw: clamp_wide(sum) }
}

/// The value at `x` of the cubic with coefficients `c`.
fn cubic_exec(c: (Scalar, Scalar, Scalar, Scalar), x: Scalar) -> (r: Scalar)
    ensures
        r == cubic(c.0, c.1, c.2, c.3, x),
{
    c.0.mul(x).mul(x).mul(x).add(c.1.mul(x).mul(x)).add(c.2.mul(x)).add(c.3)
}

/// The `t`-th point of a curve.
fn curve_point_exec(
    cx: (Scalar, Scalar, Scalar, Scalar),
    cy: (Scalar, Scalar, Scalar, Scalar),
    t: usize,
) -> (p: Point)
    requires
        t <= RESOLUTION,
    ensures
        p == curve_point(cx, cy, t as int),
{
    let x: Scalar = Scalar::from_ratio(t as i64, RESOLUTION as i64);
    (cubic_exec(cx, x), cubic_exec(cy, x), Scalar::zero())
}

/// Adds the twenty segments of a curve to the space.
fn add_curve<T: Color>(
    cx: (Scalar, Scalar, Scalar, Scalar),
    cy: (Scalar, Scalar, Scalar, Scalar),
    edges: &mut Space<T>,
)
    ensures
        final(edges)@ == (SpaceView {
            lines: old(edges)@.lines + segments(
                |t: int| curve_point(cx, cy, t),
                RESOLUTION as nat,
            ),
            ..old(edges)@
        }),
{
    let ghost point = |t: int| curve_point(cx, cy, t);
    let mut t: usize = 0;
    assert(old(edges)@.lines + segments(point, 0) =~= old(edges)@.lines);
    while t < RESOLUTION
        invariant
            t <= RESOLUTION,
            point == (|t: int| curve_point(cx, cy, t)),
            edges@ == (SpaceView {
                lines: old(edges)@.lines + segments(point, t as nat),
                ..old(edges)@
            }),
        decreases RESOLUTION - t,
    {
        let p0: Point = curve_point_exec(cx, cy, t);
        let p1: Point = curve_point_exec(cx, cy, t + 1);
        edges.add_line(p0, p1);
        proof {
            assert(edges@.lines =~= old(edges)@.lines + segments(point, (t + 1) as nat));
        }
        t = t + 1;
    }
}

/// Adds a Hermite curve to the space: the curve from `(x0, y0)` to
/// `(x1, y1)` that leaves the first with slope `(rx0, ry0)` and reaches the
/// second with slope `(rx1, ry1)`.
pub fn add_hermite<T: Color>(
    x0: Scalar,
    y0: Scalar,
    x1: Scalar,
    y1: Scalar,
    rx0: Scalar,
    ry0: Scalar,
    rx1: Scalar,
    ry1: Scalar,
    edges: &mut Space<T>,
)
    ensures
        final(edges)@ == (SpaceView {
            lines: old(edges)@.lines + segments(
                |t: int|
                    curve_point(
                        hermite_coefficients(x0, x1, rx0, rx1),
                        hermite_coefficients(y0, y1, ry0, ry1),
                        t,
                    ),
                RESOLUTION as nat,
            ),
            ..old(edges)@
        }),
{
    let cx: (Scalar, Scalar, Scalar, Scalar) = (
        blend_exec(2, x0, -2, x1, 1, rx0, 1, rx1),
        blend_exec(-3, x0, 3, x1, -2, rx0, -1, rx1),
        rx0,
        x0,
    );
    let cy: (Scalar, Scalar, Scalar, Scalar) = (
        blend_exec(2, y0, -2, y1, 1, ry0, 1, ry1),
        blend_exec(-3, y0, 3, y1, -2, ry0, -1, ry1),
        ry0,
        y0,
    );
    add_curve(cx, cy, edges);
}

/// Adds a Bezier curve to the space: the curve from `(x0, y0)` to
/// `(x3, y3)` with the control points `(x1, y1)` and `(x2, y2)`.
pub fn add_bezier<T: Color>(
    x0: Scalar,
    y0: Scalar,
    x1: Scalar,
    y1: Scalar,
    x2: Scalar,
    y2: Scalar,
    x3: Scalar,
    y3: Scalar,
    edges: &mut Space<T>,
)
    ensures
        final(edges)@ == (SpaceView {
            lines: old(edges)@.lines + segments(
                |t: int|
                    curve_point(
                        bezier_coefficients(x0, x1, x2, x3),
                        bezier_coefficients(y0, y1, y2, y3),
                        t,
                    ),
                RESOLUTION as nat,
            ),
            ..old(edges)@
        }),
{
    let cx: (Scalar, Scalar, Scalar, Scalar) = (
        blend_exec(-1, x0, 3, x1, -3, x2, 1, x3),
        blend_exec(3, x0, -6, x1, 3, x2, 0, x3),
        blend_exec(-3, x0, 3, x1, 0, x2, 0, x3),
        x0,
    );
    let cy: (Scalar, Scalar, Scalar, Scalar) = (
        blend_exec(-1, y0, 3, y1, -3, y2, 1, y3),
        blend_exec(3, y0, -6, y1, 3, y2, 0, y3),
        blend_exec(-3, y0, 3, y1, 0, y2, 0, y3),
        y0,
    );
    add_curve(cx, cy, edges);
}


} // verus!
