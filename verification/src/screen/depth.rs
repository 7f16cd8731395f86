//! Hidden-surface removal: what the depth test makes of overlapping
//! triangles.
use crate::scalar::{clamp64, trunc_div, Scalar};
use crate::screen::color::Color;
use crate::screen::line::whole;
use crate::screen::raster::{Cell, ScreenView};
use crate::screen::triangle::{
    by_height, draw_tri_spec, lemma_by_height_ordered, long_edge, rows_drawn, scanline,
    short_edge, slope, span_drawn, tri_rows, Span,
};
use crate::space::Point;
use vstd::prelude::*;

verus! {

/// Whether the triangle with the given ordered vertices writes the pixel
/// `(x, y)`.
pub open spec fn rows_cover(top: Point, middle: Point, bottom: Point, x: int, y: int) -> bool {
    let k = y - whole(bottom.1);
    &&& 0 <= k < tri_rows(top, bottom)
    &&& scanline(top, middle, bottom, k).x_start <= x <= scanline(top, middle, bottom, k).x_end
}

/// Whether the triangle with corners `p1`, `p2`, `p3` writes the pixel
/// `(x, y)`.
pub open spec fn covers(p1: Point, p2: Point, p3: Point, x: int, y: int) -> bool {
    let (top, middle, bottom) = by_height(p1, p2, p3);
    rows_cover(top, middle, bottom, x, y)
}

/// Whether all three corners lie at depth `z`.
pub open spec fn flat_at(p1: Point, p2: Point, p3: Point, z: Scalar) -> bool {
    p1.2 == z && p2.2 == z && p3.2 == z
}

/// Two pixels of the grid with the same index are the same pixel.
pub proof fn lemma_index_unique(width: int, height: int, x: int, y: int, px: int, py: int)
    requires
        0 <= x < width,
        0 <= y < height,
        0 <= px < width,
        0 <= py < height,
        y * width + x == py * width + px,
    ensures
        x == px,
        y == py,
{
    if y < py {
        assert(py * width >= (y + 1) * width) by (nonlinear_arith)
            requires
                py >= y + 1,
                width > 0,
        ;
        assert((y + 1) * width == y * width + width) by (nonlinear_arith);
    } else if py < y {
        assert(y * width >= (py + 1) * width) by (nonlinear_arith)
            requires
                y >= py + 1,
                width > 0,
        ;
        assert((py + 1) * width == py * width + width) by (nonlinear_arith);
    }
}

/// A write changes at most the pixel it is aimed at, and that one only if
/// its depth passes the test.
pub proof fn lemma_plot_cell<T: Color>(
    s: ScreenView<T>,
    x: int,
    y: int,
    z: Scalar,
    color: T,
    px: int,
    py: int,
)
    requires
        s.wf(),
        s.in_bounds(px, py),
    ensures
        s.plot(x, y, z, color).wf(),
        s.plot(x, y, z, color).width == s.width,
        s.plot(x, y, z, color).height == s.height,
        s.plot(x, y, z, color).cell(px, py) == if x == px && y == py && s.cell(px, py).depth@
            < z@ {
            Cell { color, depth: z }
        } else {
            s.cell(px, py)
        },
{
    crate::screen::raster::lemma_index_in_range(s.width, s.height, px, py);
    if s.in_bounds(x, y) {
        crate::screen::raster::lemma_index_in_range(s.width, s.height, x, y);
        if s.index(x, y) == s.index(px, py) {
            lemma_index_unique(s.width, s.height, x, y, px, py);
        }
    }
}

/// After the first `n` pixels of a span of constant depth, a pixel of the
/// grid holds the span's color and depth if the span has reached it and it
/// lay strictly behind the span, and is unchanged otherwise.
pub proof fn lemma_flat_span_cell<T: Color>(
    s: ScreenView<T>,
    span: Span,
    color: T,
    n: nat,
    px: int,
    py: int,
)
    requires
        s.wf(),
        s.in_bounds(px, py),
        span.z_step == 0,
        i64::MIN <= span.z_start <= i64::MAX,
    ensures
        span_drawn(s, span, color, n).wf(),
        span_drawn(s, span, color, n).width == s.width,
        span_drawn(s, span, color, n).height == s.height,
        span_drawn(s, span, color, n).cell(px, py) == if py == span.y && span.x_start <= px
            < span.x_start + n && s.cell(px, py).depth@ < span.z_start {
            Cell { color, depth: Scalar { raw: span.z_start as i64 } }
        } else {
            s.cell(px, py)
        },
    decreases n,
{
    if n > 0 {
        let before = span_drawn(s, span, color, (n - 1) as nat);
        lemma_flat_span_cell(s, span, color, (n - 1) as nat, px, py);
        assert(span.depth(n - 1) == Scalar { raw: span.z_start as i64 }) by {
            assert((n - 1) * 0 == 0) by (nonlinear_arith);
        }
        lemma_plot_cell(before, span.x_start + (n - 1), span.y, span.depth(n - 1), color, px, py);
    }
}

/// Every row of a triangle whose corners share one depth has that depth
/// throughout.
pub proof fn lemma_flat_scanline(top: Point, middle: Point, bottom: Point, z: Scalar, k: int)
    requires
        flat_at(top, middle, bottom, z),
        whole(bottom.1) <= whole(middle.1) <= whole(top.1),
        0 <= k,
    ensures
        scanline(top, middle, bottom, k).z_start == z@,
        scanline(top, middle, bottom, k).z_step == 0,
        scanline(top, middle, bottom, k).y == whole(bottom.1) + k,
{
    let rows = tri_rows(top, bottom);
    let turn = whole(middle.1) - whole(bottom.1);
    let rest = whole(top.1) - whole(middle.1) + 1;
    assert(slope(z, z, rows) == 0);
    assert(slope(z, z, turn + 1) == 0);
    assert(slope(z, z, rest) == 0);
    assert(k * 0 == 0) by (nonlinear_arith);
    assert((k - turn) * 0 == 0) by (nonlinear_arith);
    assert(long_edge(top, bottom, k).1 == z@);
    assert(short_edge(top, middle, bottom, k).1 == z@);
    let span = scanline(top, middle, bottom, k);
    if span.x_end != span.x_start {
        assert(trunc_div(clamp64(z@ - z@), span.x_end - span.x_start + 1) == 0);
    }
}

/// After the first `n` rows of a triangle whose corners share the depth
/// `z`, a pixel of the grid holds the triangle's color and depth if one of
/// those rows covers it and it lay strictly behind the triangle, and is
/// unchanged otherwise.
pub proof fn lemma_flat_rows_cell<T: Color>(
    s: ScreenView<T>,
    top: Point,
    middle: Point,
    bottom: Point,
    z: Scalar,
    color: T,
    n: nat,
    px: int,
    py: int,
)
    requires
        s.wf(),
        s.in_bounds(px, py),
        flat_at(top, middle, bottom, z),
        whole(bottom.1) <= whole(middle.1) <= whole(top.1),
        n <= tri_rows(top, bottom),
    ensures
        rows_drawn(s, top, middle, bottom, color, n).wf(),
        rows_drawn(s, top, middle, bottom, color, n).width == s.width,
        rows_drawn(s, top, middle, bottom, color, n).height == s.height,
        rows_drawn(s, top, middle, bottom, color, n).cell(px, py) == if py - whole(bottom.1) < n
            && rows_cover(top, middle, bottom, px, py) && s.cell(px, py).depth@ < z@ {
            Cell { color, depth: z }
        } else {
            s.cell(px, py)
        },
    decreases n,
{
    if n > 0 {
        let before = rows_drawn(s, top, middle, bottom, color, (n - 1) as nat);
        let span = scanline(top, middle, bottom, n - 1);
        lemma_flat_rows_cell(s, top, middle, bottom, z, color, (n - 1) as nat, px, py);
        lemma_flat_scanline(top, middle, bottom, z, n - 1);
        lemma_flat_span_cell(before, span, color, span.width() as nat, px, py);
    }
}

/// After a triangle whose corners share the depth `z` has been filled, a
/// pixel of the grid holds the triangle's color and depth if the triangle
/// covers it and it lay strictly behind the triangle, and is unchanged
/// otherwise.
pub proof fn lemma_flat_triangle_cell<T: Color>(
    s: ScreenView<T>,
    p1: Point,
    p2: Point,
    p3: Point,
    z: Scalar,
    color: T,
    px: int,
    py: int,
)
    requires
        s.wf(),
        s.in_bounds(px, py),
        flat_at(p1, p2, p3, z),
    ensures
        draw_tri_spec(s, p1, p2, p3, color).wf(),
        draw_tri_spec(s, p1, p2, p3, color).width == s.width,
        draw_tri_spec(s, p1, p2, p3, color).height == s.height,
        draw_tri_spec(s, p1, p2, p3, color).cell(px, py) == if covers(p1, p2, p3, px, py)
            && s.cell(px, py).depth@ < z@ {
            Cell { color, depth: z }
        } else {
            s.cell(px, py)
        },
{
    let (top, middle, bottom) = by_height(p1, p2, p3);
    lemma_by_height_ordered(p1, p2, p3);
    lemma_flat_rows_cell(
        s,
        top,
        middle,
        bottom,
        z,
        color,
        tri_rows(top, bottom) as nat,
        px,
        py,
    );
}

/// Of two triangles of constant, different depths that cover the same
/// pixel, the nearer one decides the pixel, in whichever order the two are
/// drawn: the pixel ends up the same either way, and where it lay behind
/// the nearer triangle before, it ends up with that triangle's color and
/// depth.
pub proof fn lemma_nearer_triangle_wins<T: Color>(
    s: ScreenView<T>,
    near: (Point, Point, Point),
    near_depth: Scalar,
    near_color: T,
    far: (Point, Point, Point),
    far_depth: Scalar,
    far_color: T,
    px: int,
    py: int,
)
    requires
        s.wf(),
        s.in_bounds(px, py),
        flat_at(near.0, near.1, near.2, near_depth),
        flat_at(far.0, far.1, far.2, far_depth),
        far_depth@ < near_depth@,
        covers(near.0, near.1, near.2, px, py),
        covers(far.0, far.1, far.2, px, py),
    ensures
        draw_tri_spec(
            draw_tri_spec(s, near.0, near.1, near.2, near_color),
            far.0,
            far.1,
            far.2,
            far_color,
        ).cell(px, py) == draw_tri_spec(
            draw_tri_spec(s, far.0, far.1, far.2, far_color),
            near.0,
            near.1,
            near.2,
            near_color,
        ).cell(px, py),
        s.cell(px, py).depth@ < near_depth@ ==> draw_tri_spec(
            draw_tri_spec(s, far.0, far.1, far.2, far_color),
            near.0,
            near.1,
            near.2,
            near_color,
        ).cell(px, py) == (Cell { color: near_color, depth: near_depth }),
        s.cell(px, py).depth@ >= near_depth@ ==> draw_tri_spec(
            draw_tri_spec(s, far.0, far.1, far.2, far_color),
            near.0,
            near.1,
            near.2,
            near_color,
        ).cell(px, py) == s.cell(px, py),
{
    let near_first = draw_tri_spec(s, near.0, near.1, near.2, near_color);
    let far_first = draw_tri_spec(s, far.0, far.1, far.2, far_color);
    lemma_flat_triangle_cell(s, near.0, near.1, near.2, near_depth, near_color, px, py);
    lemma_flat_triangle_cell(s, far.0, far.1, far.2, far_depth, far_color, px, py);
    lemma_flat_triangle_cell(near_first, far.0, far.1, far.2, far_depth, far_color, px, py);
    lemma_flat_triangle_cell(far_first, near.0, near.1, near.2, near_depth, near_color, px, py);
}

} // verus!
