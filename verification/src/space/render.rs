//! Drawing a space to a screen.
//!
//! Lines are drawn first, each in one flat color. Triangles follow: one
//! that faces away from the viewer is left out, any other is filled with
//! its Phong color.
use crate::gmath::{dot_spec, norm_spec};
use crate::scalar::{Scalar, ONE_RAW};
use crate::screen::color::Color;
use crate::screen::line::draw_line_spec;
use crate::screen::raster::{Screen, ScreenView};
use crate::screen::triangle::draw_tri_spec;
use crate::space::geometry::{position, Space, SpaceView, Vertex};
use crate::space::modtrix::lemma_unit_products;
use crate::space::shading::{phong_color, phong_spec};
use crate::space::Point;
use vstd::prelude::*;

verus! {

/// The direction from the scene toward the viewer.
pub open spec fn view_vector() -> Point {
    (Scalar { raw: 0 }, Scalar { raw: 0 }, Scalar { raw: ONE_RAW })
}

/// The normal of the triangle measured along the view vector. It is
/// positive for a triangle whose corners run counter-clockwise on the
/// screen.
pub open spec fn facing(p1: Point, p2: Point, p3: Point) -> Scalar {
    dot_spec(norm_spec(p1, p2, p3), view_vector())
}

/// Whether the triangle is visible: whether its normal points toward the
/// viewer.
pub open spec fn front_facing(p1: Point, p2: Point, p3: Point) -> bool {
    facing(p1, p2, p3)@ > 0
}

/// The screen after the first `n` lines have been drawn, line `i` in
/// `colors[i]`.
pub open spec fn lines_drawn<T: Color>(
    screen: ScreenView<T>,
    lines: Seq<(Vertex, Vertex)>,
    colors: Seq<T>,
    n: nat,
) -> ScreenView<T>
    decreases n,
{
    if n == 0 {
        screen
    } else {
        draw_line_spec(
            lines_drawn(screen, lines, colors, (n - 1) as nat),
            position(lines[n - 1].0),
            position(lines[n - 1].1),
            colors[n - 1],
        )
    }
}

/// The screen after the first `n` triangles of the space have been dealt
/// with: the visible ones filled with their Phong color, the others left
/// out.
pub open spec fn triangles_drawn<T: Color>(
    screen: ScreenView<T>,
    space: SpaceView<T>,
    n: nat,
) -> ScreenView<T>
    decreases n,
{
    if n == 0 {
        screen
    } else {
        let before = triangles_drawn(screen, space, (n - 1) as nat);
        let p1 = position(space.triangles[n - 1].0);
        let p2 = position(space.triangles[n - 1].1);
        let p3 = position(space.triangles[n - 1].2);
        if front_facing(p1, p2, p3) {
            draw_tri_spec(before, p1, p2, p3, phong_spec(space, p1, p2, p3))
        } else {
            before
        }
    }
}

/// The screen after the whole space has been drawn, line `i` in
/// `colors[i]`.
pub open spec fn draw_space_spec<T: Color>(
    screen: ScreenView<T>,
    space: SpaceView<T>,
    colors: Seq<T>,
) -> ScreenView<T> {
    triangles_drawn(
        lines_drawn(screen, space.lines, colors, space.lines.len()),
        space,
        space.triangles.len(),
    )
}

/// The normal of a triangle, measured along the view vector, is the z
/// component of its normal.
pub proof fn lemma_facing_is_normal_z(p1: Point, p2: Point, p3: Point)
    ensures
        facing(p1, p2, p3) == norm_spec(p1, p2, p3).2,
{
    let n = norm_spec(p1, p2, p3);
    lemma_unit_products(n.0@);
    lemma_unit_products(n.1@);
    lemma_unit_products(n.2@);
}

/// Reversing the winding order of a triangle flips the sign of its normal
/// along the view vector. So a triangle is visible in at most one of its
/// two orientations, and in exactly one unless it is seen edge-on.
pub proof fn lemma_winding_decides_visibility(p1: Point, p2: Point, p3: Point)
    ensures
        facing(p1, p2, p3)@ > 0 <==> facing(p1, p3, p2)@ < 0,
        facing(p1, p2, p3)@ < 0 <==> facing(p1, p3, p2)@ > 0,
        !(front_facing(p1, p2, p3) && front_facing(p1, p3, p2)),
        facing(p1, p2, p3)@ != 0 ==> (front_facing(p1, p2, p3) <==> !front_facing(p1, p3, p2)),
{
    lemma_facing_is_normal_z(p1, p2, p3);
    lemma_facing_is_normal_z(p1, p3, p2);
    let a = crate::gmath::sub_spec(p1, p2);
    let b = crate::gmath::sub_spec(p1, p3);
    assert(a.0@ * b.1@ == b.1@ * a.0@) by (nonlinear_arith);
    assert(a.1@ * b.0@ == b.0@ * a.1@) by (nonlinear_arith);
}

/// Drawing a space changes neither the size of the screen nor the number
/// of its cells.
pub proof fn lemma_draw_space_keeps_grid<T: Color>(
    screen: ScreenView<T>,
    space: SpaceView<T>,
    colors: Seq<T>,
)
    requires
        screen.wf(),
    ensures
        draw_space_spec(screen, space, colors).wf(),
        draw_space_spec(screen, space, colors).width == screen.width,
        draw_space_spec(screen, space, colors).height == screen.height,
{
    lemma_lines_keep_grid(screen, space.lines, colors, space.lines.len());
    lemma_triangles_keep_grid(
        lines_drawn(screen, space.lines, colors, space.lines.len()),
        space,
        space.triangles.len(),
    );
}

/// Lines change neither the size of the screen nor the number of its cells.
pub proof fn lemma_lines_keep_grid<T: Color>(
    screen: ScreenView<T>,
    lines: Seq<(Vertex, Vertex)>,
    colors: Seq<T>,
    n: nat,
)
    requires
        screen.wf(),
    ensures
        lines_drawn(screen, lines, colors, n).wf(),
        lines_drawn(screen, lines, colors, n).width == screen.width,
        lines_drawn(screen, lines, colors, n).height == screen.height,
    decreases n,
{
    if n > 0 {
        lemma_lines_keep_grid(screen, lines, colors, (n - 1) as nat);
        let p1 = position(lines[n - 1].0);
        let p2 = position(lines[n - 1].1);
        crate::screen::line::lemma_line_keeps_grid(
            lines_drawn(screen, lines, colors, (n - 1) as nat),
            p1,
            p2,
            colors[n - 1],
            (crate::screen::line::line_steps(p1, p2) + 1) as nat,
        );
    }
}

/// Triangles change neither the size of the screen nor the number of its
/// cells.
pub proof fn lemma_triangles_keep_grid<T: Color>(
    screen: ScreenView<T>,
    space: SpaceView<T>,
    n: nat,
)
    requires
        screen.wf(),
    ensures
        triangles_drawn(screen, space, n).wf(),
        triangles_drawn(screen, space, n).width == screen.width,
        triangles_drawn(screen, space, n).height == screen.height,
    decreases n,
{
    if n > 0 {
        lemma_triangles_keep_grid(screen, space, (n - 1) as nat);
        let p1 = position(space.triangles[n - 1].0);
        let p2 = position(space.triangles[n - 1].1);
        let p3 = position(space.triangles[n - 1].2);
        crate::screen::triangle::lemma_triangle_keeps_grid(
            triangles_drawn(screen, space, (n - 1) as nat),
            p1,
            p2,
            p3,
            phong_spec(space, p1, p2, p3),
        );
    }
}

/// The first three coordinates of `v`.
pub fn vertex_position(v: &Vertex) -> (p: Point)
    ensures
        p == position(*v),
{
    (v[0], v[1], v[2])
}

/// Whether the triangle is visible.
pub fn is_front_facing(p1: Point, p2: Point, p3: Point) -> (r: bool)
    ensures
        r == front_facing(p1, p2, p3),
{
    let view: Point = (Scalar::zero(), Scalar::zero(), Scalar::one());
    let snorm: Point = crate::gmath::norm(p1, p2, p3);
    crate::gmath::dot(snorm, view).raw > 0
}

/// Draws the triangles of the space.
fn draw_triangles<T: Color>(space: &Space<T>, s: &mut Screen<T>)
    ensures
        final(s)@ == triangles_drawn(old(s)@, space@, space@.triangles.len()),
{
    let triangles: &Vec<(Vertex, Vertex, Vertex)> = space.triangles();
    let count: usize = triangles.len();
    let mut i: usize = 0;
    while i < count
        invariant
            i <= count,
            count == space@.triangles.len(),
            triangles@ == space@.triangles,
            s@ == triangles_drawn(old(s)@, space@, i as nat),
        decreases count - i,
    {
        let p1: Point = vertex_position(&triangles[i].0);
        let p2: Point = vertex_position(&triangles[i].1);
        let p3: Point = vertex_position(&triangles[i].2);
        if is_front_facing(p1, p2, p3) {
            let color: T = phong_color(p1, p2, p3, space);
            s.draw_tri(p1, p2, p3, color);
        }
        i = i + 1;
    }
}

/// Draws the space to the screen, each line in a color chosen at random.
pub fn draw_space<U: Color>(space: &Space<U>, s: &mut Screen<U>)
    ensures
        exists|colors: Seq<U>|
            colors.len() == space@.lines.len() && final(s)@ == draw_space_spec(
                old(s)@,
                space@,
                colors,
            ),
{
    let lines: &Vec<(Vertex, Vertex)> = space.lines();
    let count: usize = lines.len();
    let ghost mut colors: Seq<U> = Seq::empty();
    let mut i: usize = 0;
    while i < count
        invariant
            i <= count,
            count == space@.lines.len(),
            lines@ == space@.lines,
            colors.len() == i,
            s@ == lines_drawn(old(s)@, space@.lines, colors, i as nat),
        decreases count - i,
    {
        let p1: Point = vertex_position(&lines[i].0);
        let p2: Point = vertex_position(&lines[i].1);
        let color: U = U::random_color();
        proof {
            lemma_lines_drawn_prefix(old(s)@, space@.lines, colors, colors.push(color), i as nat);
            colors = colors.push(color);
        }
        s.draw_line(p1, p2, color);
        i = i + 1;
    }
    draw_triangles(space, s);
    assert(s@ == draw_space_spec(old(s)@, space@, colors));
}

/// What the first `n` lines look like depends on the first `n` colors only.
pub proof fn lemma_lines_drawn_prefix<T: Color>(
    screen: ScreenView<T>,
    lines: Seq<(Vertex, Vertex)>,
    a: Seq<T>,
    b: Seq<T>,
    n: nat,
)
    requires
        n <= a.len(),
        n <= b.len(),
        forall|i: int| 0 <= i < n ==> a[i] == b[i],
    ensures
        lines_drawn(screen, lines, a, n) == lines_drawn(screen, lines, b, n),
    decreases n,
{
    if n > 0 {
        lemma_lines_drawn_prefix(screen, lines, a, b, (n - 1) as nat);
    }
}

impl<T: Color> Space<T> {
    /// Draws the space to the screen, every line in `color`.
    pub fn draw_space(space: &Space<T>, color: T, s: &mut Screen<T>)
        ensures
            final(s)@ == draw_space_spec(
                old(s)@,
                space@,
                Seq::new(space@.lines.len(), |i: int| color),
            ),
    {
        let lines: &Vec<(Vertex, Vertex)> = space.lines();
        let count: usize = lines.len();
        let ghost colors: Seq<T> = Seq::new(space@.lines.len(), |i: int| color);
        let mut i: usize = 0;
        while i < count
            invariant
                i <= count,
                count == space@.lines.len(),
                lines@ == space@.lines,
                colors == Seq::new(space@.lines.len(), |i: int| color),
                s@ == lines_drawn(old(s)@, space@.lines, colors, i as nat),
            decreases count - i,
        {
            let p1: Point = vertex_position(&lines[i].0);
            let p2: Point = vertex_position(&lines[i].1);
            s.draw_line(p1, p2, color);
            i = i + 1;
        }
        draw_triangles(space, s);
    }
}

} // verus!
