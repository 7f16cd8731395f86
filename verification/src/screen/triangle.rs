//! Triangle rasterization by scan conversion.
//!
//! The three vertices are ordered by height. Rows are walked from the
//! bottom vertex up to the top one. Two cursors follow the edges: one the
//! long edge from bottom to top, the other first the edge from bottom to
//! middle and then, from the row of the middle vertex on, the edge from
//! middle to top. Each row is filled from the left cursor to the right one,
//! the depth running linearly from one to the other.
use crate::scalar::{clamp64, trunc_div, Scalar, ONE_RAW};
use crate::screen::color::Color;
use crate::screen::line::whole;
use crate::screen::raster::{Screen, ScreenView};
use crate::space::Point;
use vstd::prelude::*;

verus! {

/// The vertices ordered top, middle, bottom by their y coordinate.
pub open spec fn by_height(p1: Point, p2: Point, p3: Point) -> (Point, Point, Point) {
    let (t1, m1) = if p2.1@ > p1.1@ {
        (p2, p1)
    } else {
        (p1, p2)
    };
    let (m2, b2) = if p3.1@ > m1.1@ {
        (p3, m1)
    } else {
        (m1, p3)
    };
    if m2.1@ > t1.1@ {
        (m2, t1, b2)
    } else {
        (t1, m2, b2)
    }
}

/// What a cursor gains per row on its way from `from` to `to` over `rows`
/// rows, as a raw count rounded toward zero.
pub open spec fn slope(from: Scalar, to: Scalar, rows: int) -> int {
    trunc_div(clamp64(to@ - from@), rows)
}

/// A raw count `n` saturating steps of `delta` from `start`.
pub open spec fn advance(start: int, delta: int, n: int) -> int {
    clamp64(start + n * delta)
}

/// The number of rows of a triangle with the given top and bottom vertices.
pub open spec fn tri_rows(top: Point, bottom: Point) -> int {
    whole(top.1) - whole(bottom.1) + 1
}

/// The row, counted from the bottom one, on which the middle vertex lies.
pub open spec fn middle_row(middle: Point, bottom: Point) -> int {
    whole(middle.1) - whole(bottom.1)
}

/// The raw x and depth of the cursor on the long edge at row `k`.
pub open spec fn long_edge(top: Point, bottom: Point, k: int) -> (int, int) {
    let rows = tri_rows(top, bottom);
    (
        advance(bottom.0@, slope(bottom.0, top.0, rows), k),
        advance(bottom.2@, slope(bottom.2, top.2, rows), k),
    )
}

/// The raw x and depth of the cursor on the two short edges at row `k`.
pub open spec fn short_edge(top: Point, middle: Point, bottom: Point, k: int) -> (int, int) {
    let turn = middle_row(middle, bottom);
    if k < turn {
        (
            advance(bottom.0@, slope(bottom.0, middle.0, turn + 1), k),
            advance(bottom.2@, slope(bottom.2, middle.2, turn + 1), k),
        )
    } else {
        let rest = whole(top.1) - whole(middle.1) + 1;
        (
            advance(middle.0@, slope(middle.0, top.0, rest), k - turn),
            advance(middle.2@, slope(middle.2, top.2, rest), k - turn),
        )
    }
}

/// One row of a triangle: the pixels `x_start ..= x_end` of row `y`, the
/// depth starting at `z_start` and gaining `z_step` per pixel.
pub struct Span {
    pub y: int,
    pub x_start: int,
    pub x_end: int,
    pub z_start: int,
    pub z_step: int,
}

impl Span {
    /// The number of pixels of the span.
    pub open spec fn width(self) -> int {
        self.x_end - self.x_start + 1
    }

    /// The depth at the `j`-th pixel of the span.
    pub open spec fn depth(self, j: int) -> Scalar {
        Scalar { raw: advance(self.z_start, self.z_step, j) as i64 }
    }
}

/// The span between a cursor at raw `(xa, za)` and one at raw `(xb, zb)` on
/// row `y`. It runs from the cursor with the smaller x to the other.
pub open spec fn span_between(y: int, xa: int, za: int, xb: int, zb: int) -> Span {
    let (xl, zl, xr, zr) = if xa > xb {
        (xb, zb, xa, za)
    } else {
        (xa, za, xb, zb)
    };
    let x_start = trunc_div(xl, ONE_RAW as int);
    let x_end = trunc_div(xr, ONE_RAW as int);
    Span {
        y,
        x_start,
        x_end,
        z_start: zl,
        z_step: if x_end != x_start {
            trunc_div(clamp64(zr - zl), x_end - x_start + 1)
        } else {
            0
        },
    }
}

/// Row `k` of the triangle with the given vertices, counted from the bottom.
pub open spec fn scanline(top: Point, middle: Point, bottom: Point, k: int) -> Span {
    let a = long_edge(top, bottom, k);
    let b = short_edge(top, middle, bottom, k);
    span_between(whole(bottom.1) + k, a.0, a.1, b.0, b.1)
}

/// The screen after the first `n` pixels of `span` have been written.
pub open spec fn span_drawn<T: Color>(s: ScreenView<T>, span: Span, color: T, n: nat) -> ScreenView<
    T,
>
    decreases n,
{
    if n == 0 {
        s
    } else {
        span_drawn(s, span, color, (n - 1) as nat).plot(
            span.x_start + (n - 1),
            span.y,
            span.depth(n - 1),
            color,
        )
    }
}

/// The screen after the first `k` rows of the triangle have been filled.
pub open spec fn rows_drawn<T: Color>(
    s: ScreenView<T>,
    top: Point,
    middle: Point,
    bottom: Point,
    color: T,
    k: nat,
) -> ScreenView<T>
    decreases k,
{
    if k == 0 {
        s
    } else {
        let span = scanline(top, middle, bottom, k - 1);
        span_drawn(
            rows_drawn(s, top, middle, bottom, color, (k - 1) as nat),
            span,
            color,
            span.width() as nat,
        )
    }
}

/// The screen after the triangle has been filled with `color`.
pub open spec fn draw_tri_spec<T: Color>(
    s: ScreenView<T>,
    p1: Point,
    p2: Point,
    p3: Point,
    color: T,
) -> ScreenView<T> {
    let (top, middle, bottom) = by_height(p1, p2, p3);
    rows_drawn(s, top, middle, bottom, color, tri_rows(top, bottom) as nat)
}

/// One more saturating step of `delta` after `n` of them.
pub proof fn lemma_advance_step(start: int, delta: int, n: int)
    requires
        n >= 0,
        i64::MIN <= start <= i64::MAX,
    ensures
        clamp64(advance(start, delta, n) + delta) == advance(start, delta, n + 1),
        advance(start, delta, 0) == start,
{
    assert((n + 1) * delta == n * delta + delta) by (nonlinear_arith);
    if delta >= 0 {
        assert(n * delta >= 0) by (nonlinear_arith)
            requires
                n >= 0,
                delta >= 0,
        ;
    } else {
        assert(n * delta <= 0) by (nonlinear_arith)
            requires
                n >= 0,
                delta < 0,
        ;
    }
}

/// The whole part keeps the order of scalars.
pub proof fn lemma_whole_monotone(a: Scalar, b: Scalar)
    requires
        a@ <= b@,
    ensures
        whole(a) <= whole(b),
{
    crate::scalar::lemma_trunc_div_monotone(a@, b@, ONE_RAW as int);
}

/// The vertices come out of the ordering top first, bottom last.
pub proof fn lemma_by_height_ordered(p1: Point, p2: Point, p3: Point)
    ensures
        ({
            let (top, middle, bottom) = by_height(p1, p2, p3);
            &&& bottom.1@ <= middle.1@ <= top.1@
            &&& whole(bottom.1) <= whole(middle.1) <= whole(top.1)
        }),
{
    let (top, middle, bottom) = by_height(p1, p2, p3);
    lemma_whole_monotone(bottom.1, middle.1);
    lemma_whole_monotone(middle.1, top.1);
}

/// A triangle changes neither the size of the screen nor the number of its
/// cells.
pub proof fn lemma_triangle_keeps_grid<T: Color>(
    s: ScreenView<T>,
    p1: Point,
    p2: Point,
    p3: Point,
    color: T,
)
    requires
        s.wf(),
    ensures
        draw_tri_spec(s, p1, p2, p3, color).wf(),
        draw_tri_spec(s, p1, p2, p3, color).width == s.width,
        draw_tri_spec(s, p1, p2, p3, color).height == s.height,
{
    let (top, middle, bottom) = by_height(p1, p2, p3);
    lemma_rows_keep_grid(s, top, middle, bottom, color, tri_rows(top, bottom) as nat);
}

/// The rows of a triangle change neither the size of the screen nor the
/// number of its cells.
pub proof fn lemma_rows_keep_grid<T: Color>(
    s: ScreenView<T>,
    top: Point,
    middle: Point,
    bottom: Point,
    color: T,
    k: nat,
)
    requires
        s.wf(),
    ensures
        rows_drawn(s, top, middle, bottom, color, k).wf(),
        rows_drawn(s, top, middle, bottom, color, k).width == s.width,
        rows_drawn(s, top, middle, bottom, color, k).height == s.height,
    decreases k,
{
    if k > 0 {
        let span = scanline(top, middle, bottom, k - 1);
        lemma_rows_keep_grid(s, top, middle, bottom, color, (k - 1) as nat);
        lemma_span_keeps_grid(
            rows_drawn(s, top, middle, bottom, color, (k - 1) as nat),
            span,
            color,
            span.width() as nat,
        );
    }
}

/// A span changes neither the size of the screen nor the number of its
/// cells.
pub proof fn lemma_span_keeps_grid<T: Color>(s: ScreenView<T>, span: Span, color: T, n: nat)
    requires
        s.wf(),
    ensures
        span_drawn(s, span, color, n).wf(),
        span_drawn(s, span, color, n).width == s.width,
        span_drawn(s, span, color, n).height == s.height,
    decreases n,
{
    if n > 0 {
        lemma_span_keeps_grid(s, span, color, (n - 1) as nat);
        crate::screen::raster::lemma_plot_keeps_grid(
            span_drawn(s, span, color, (n - 1) as nat),
            span.x_start + (n - 1),
            span.y,
            span.depth(n - 1),
            color,
        );
    }
}

impl<T: Color> Screen<T> {
    /// Fills one row of a triangle.
    fn draw_span(
        &mut self,
        y: i64,
        x0: Scalar,
        z0: Scalar,
        x1: Scalar,
        z1: Scalar,
        color: T,
    )
        ensures
            final(self)@ == span_drawn(
                old(self)@,
                span_between(y as int, x0@, z0@, x1@, z1@),
                color,
                span_between(y as int, x0@, z0@, x1@, z1@).width() as nat,
            ),
    {
        let ghost span = span_between(y as int, x0@, z0@, x1@, z1@);
        let x_start: i64;
        let x_end: i64;
        let z_start: Scalar;
        let z_end: Scalar;
        if x0.raw > x1.raw {
            x_start = x1.trunc();
            x_end = x0.trunc();
            z_start = z1;
            z_end = z0;
            proof {
                crate::scalar::lemma_trunc_div_monotone(x1@, x0@, ONE_RAW as int);
            }
        } else {
            x_start = x0.trunc();
            x_end = x1.trunc();
            z_start = z0;
            z_end = z1;
            proof {
                crate::scalar::lemma_trunc_div_monotone(x0@, x1@, ONE_RAW as int);
            }
        }
        let delta_z: Scalar = if x_end - x_start != 0 {
            z_end.sub(z_start).div_int(x_end - x_start + 1)
        } else {
            Scalar::zero()
        };
        assert(span.x_start == x_start && span.x_end == x_end);
        assert(span.z_start == z_start@ && span.z_step == delta_z@);

        let mut z: Scalar = z_start;
        let mut x: i64 = x_start;
        let ghost mut j: int = 0;
        proof {
            lemma_advance_step(z_start@, delta_z@, 0);
        }
        while x <= x_end
            invariant
                -0x8000_0000_0000 <= x_start <= x_end <= 0x8000_0000_0000,
                x == x_start + j,
                0 <= j <= x_end - x_start + 1,
                span == span_between(y as int, x0@, z0@, x1@, z1@),
                span.x_start == x_start,
                span.x_end == x_end,
                span.y == y,
                span.z_start == z_start@,
                span.z_step == delta_z@,
                z == span.depth(j),
                self@ == span_drawn(old(self)@, span, color, j as nat),
            decreases x_end - x + 1,
        {
            self.plot(x, y, z, color);
            proof {
                lemma_advance_step(z_start@, delta_z@, j);
                j = j + 1;
            }
            z = z.add(delta_z);
            x = x + 1;
        }
    }

    /// Fills the triangle with corners `p1`, `p2` and `p3` with `color`.
    /// Pixels that do not lie on the screen are skipped.
    pub fn draw_tri(&mut self, p1: Point, p2: Point, p3: Point, color: T)
        ensures
            final(self)@ == draw_tri_spec(old(self)@, p1, p2, p3, color),
    {
        let mut tt: Point = p1;
        let mut tm: Point = p2;
        let mut tb: Point = p3;
        if tm.1.raw > tt.1.raw {
            let swap: Point = tt;
            tt = tm;
            tm = swap;
        }
        if tb.1.raw > tm.1.raw {
            let swap: Point = tm;
            tm = tb;
            tb = swap;
        }
        if tm.1.raw > tt.1.raw {
            let swap: Point = tt;
            tt = tm;
            tm = swap;
        }
        assert((tt, tm, tb) == by_height(p1, p2, p3));
        proof {
            lemma_by_height_ordered(p1, p2, p3);
        }

        let y_bottom: i64 = tb.1.trunc();
        let y_middle: i64 = tm.1.trunc();
        let y_top: i64 = tt.1.trunc();
        let dist0: i64 = y_top - y_bottom + 1;
        let dist1: i64 = y_middle - y_bottom + 1;
        let dist2: i64 = y_top - y_middle + 1;

        let mut x0: Scalar = tb.0;
        let mut x1: Scalar = tb.0;
        let mut z0: Scalar = tb.2;
        let mut z1: Scalar = tb.2;
        let dx0: Scalar = tt.0.sub(tb.0).div_int(dist0);
        let dz0: Scalar = tt.2.sub(tb.2).div_int(dist0);
        let mut dx1: Scalar = tm.0.sub(tb.0).div_int(dist1);
        let mut dz1: Scalar = tm.2.sub(tb.2).div_int(dist1);

        let mut y: i64 = y_bottom;
        let mut flip: bool = false;
        proof {
            lemma_advance_step(tb.0@, dx0@, 0);
            lemma_advance_step(tb.2@, dz0@, 0);
            lemma_advance_step(tb.0@, dx1@, 0);
            lemma_advance_step(tb.2@, dz1@, 0);
        }
        while y <= y_top
            invariant
                -0x8000_0000_0000 <= y_bottom <= y_middle <= y_top <= 0x8000_0000_0000,
                y_bottom == whole(tb.1),
                y_middle == whole(tm.1),
                y_top == whole(tt.1),
                dist0 == tri_rows(tt, tb),
                dist1 == middle_row(tm, tb) + 1,
                dist2 == y_top - y_middle + 1,
                y_bottom <= y <= y_top + 1,
                dx0@ == slope(tb.0, tt.0, dist0 as int),
                dz0@ == slope(tb.2, tt.2, dist0 as int),
                flip == (y > y_middle),
                !flip ==> dx1@ == slope(tb.0, tm.0, dist1 as int),
                !flip ==> dz1@ == slope(tb.2, tm.2, dist1 as int),
                flip ==> dx1@ == slope(tm.0, tt.0, dist2 as int),
                flip ==> dz1@ == slope(tm.2, tt.2, dist2 as int),
                x0@ == long_edge(tt, tb, y - y_bottom).0,
                z0@ == long_edge(tt, tb, y - y_bottom).1,
                !flip ==> x1@ == advance(tb.0@, dx1@, y - y_bottom),
                !flip ==> z1@ == advance(tb.2@, dz1@, y - y_bottom),
                flip ==> x1@ == advance(tm.0@, dx1@, y - y_middle),
                flip ==> z1@ == advance(tm.2@, dz1@, y - y_middle),
                self@ == rows_drawn(old(self)@, tt, tm, tb, color, (y - y_bottom) as nat),
            decreases y_top + 1 - y,
        {
            let ghost k: int = y - y_bottom;
            if !flip && y >= y_middle {
                flip = true;
                dx1 = tt.0.sub(tm.0).div_int(dist2);
                dz1 = tt.2.sub(tm.2).div_int(dist2);
                x1 = tm.0;
                z1 = tm.2;
                proof {
                    lemma_advance_step(tm.0@, dx1@, 0);
                    lemma_advance_step(tm.2@, dz1@, 0);
                }
            }
            assert(x1@ == short_edge(tt, tm, tb, k).0);
            assert(z1@ == short_edge(tt, tm, tb, k).1);
            assert(span_between(y as int, x0@, z0@, x1@, z1@) == scanline(tt, tm, tb, k));

            self.draw_span(y, x0, z0, x1, z1, color);

            proof {
                lemma_advance_step(tb.0@, dx0@, k);
                lemma_advance_step(tb.2@, dz0@, k);
                if flip {
                    lemma_advance_step(tm.0@, dx1@, y - y_middle);
                    lemma_advance_step(tm.2@, dz1@, y - y_middle);
                } else {
                    lemma_advance_step(tb.0@, dx1@, k);
                    lemma_advance_step(tb.2@, dz1@, k);
                }
            }
            x0 = x0.add(dx0);
            x1 = x1.add(dx1);
            z0 = z0.add(dz0);
            z1 = z1.add(dz1);
            y = y + 1;
        }
    }
}

} // verus!
