//! Line rasterization.
//!
//! A line is walked in `steps + 1` pixels, where `steps` is the largest of
//! the three whole-number extents of the line. After `k` steps each axis
//! has advanced by its share `k * extent / steps`, rounded to the nearest
//! whole number with ties toward the start. The walk itself keeps one
//! error accumulator per axis and never multiplies or divides.
use crate::scalar::{clamp64, trunc_div, Scalar, ONE_RAW};
use crate::screen::color::Color;
use crate::screen::raster::{Screen, ScreenView};
use crate::space::Point;
use vstd::prelude::*;

verus! {

/// The pixel coordinate that a scalar falls on: its whole part.
pub open spec fn whole(s: Scalar) -> int {
    trunc_div(s@, ONE_RAW as int)
}

/// The absolute value of `v`.
pub open spec fn magnitude(v: int) -> int {
    if v < 0 {
        -v
    } else {
        v
    }
}

/// The largest of the three.
pub open spec fn max3(a: int, b: int, c: int) -> int {
    if a >= b && a >= c {
        a
    } else if b >= c {
        b
    } else {
        c
    }
}

/// The raw magnitude of the difference of two scalars, saturated.
pub open spec fn raw_extent(a: Scalar, b: Scalar) -> int {
    clamp64(magnitude(clamp64(b@ - a@)))
}

/// The number of steps of the line from `p1` to `p2`: the largest of its
/// extents in pixels along x and y and in whole units along z.
pub open spec fn line_steps(p1: Point, p2: Point) -> int {
    max3(
        magnitude(whole(p2.0) - whole(p1.0)),
        magnitude(whole(p2.1) - whole(p1.1)),
        trunc_div(raw_extent(p1.2, p2.2), ONE_RAW as int),
    )
}

/// The raw length over which the depth is spread: the largest of the three
/// raw extents of the line.
pub open spec fn depth_period(p1: Point, p2: Point) -> int {
    max3(raw_extent(p1.0, p2.0), raw_extent(p1.1, p2.1), raw_extent(p1.2, p2.2))
}

/// The share of `extent` that has been covered after `k` of `period` steps:
/// `k * extent / period` rounded to the nearest whole number, a tie going to
/// the smaller one.
pub open spec fn rounded_share(k: int, extent: int, period: int) -> int {
    if period <= 0 {
        0
    } else {
        (k * extent - period / 2 + period - 1) / period
    }
}

/// `n` whole steps from `from` in the direction of `to`.
pub open spec fn toward(from: int, to: int, n: int) -> int {
    if to > from {
        from + n
    } else if to < from {
        from - n
    } else {
        from
    }
}

/// The depth `n` unit steps from that of `p1` in the direction of that of
/// `p2`, saturated.
pub open spec fn depth_toward(p1: Point, p2: Point, n: int) -> Scalar {
    if clamp64(p2.2@ - p1.2@) > 0 {
        Scalar { raw: clamp64(p1.2@ + ONE_RAW * n) as i64 }
    } else if clamp64(p2.2@ - p1.2@) < 0 {
        Scalar { raw: clamp64(p1.2@ - ONE_RAW * n) as i64 }
    } else {
        p1.2
    }
}

/// The pixel and depth that the line from `p1` to `p2` reaches after `k`
/// steps.
pub open spec fn line_point(p1: Point, p2: Point, k: int) -> (int, int, Scalar) {
    let steps = line_steps(p1, p2);
    (
        toward(
            whole(p1.0),
            whole(p2.0),
            rounded_share(k, magnitude(whole(p2.0) - whole(p1.0)), steps),
        ),
        toward(
            whole(p1.1),
            whole(p2.1),
            rounded_share(k, magnitude(whole(p2.1) - whole(p1.1)), steps),
        ),
        depth_toward(
            p1,
            p2,
            rounded_share(k, raw_extent(p1.2, p2.2), depth_period(p1, p2)),
        ),
    )
}

/// The screen after the first `n` pixels of the line have been written.
pub open spec fn line_drawn<T: Color>(
    s: ScreenView<T>,
    p1: Point,
    p2: Point,
    color: T,
    n: nat,
) -> ScreenView<T>
    decreases n,
{
    if n == 0 {
        s
    } else {
        let q = line_point(p1, p2, n - 1);
        line_drawn(s, p1, p2, color, (n - 1) as nat).plot(q.0, q.1, q.2, color)
    }
}

/// The screen after the whole line, both endpoints included, has been
/// written.
pub open spec fn draw_line_spec<T: Color>(
    s: ScreenView<T>,
    p1: Point,
    p2: Point,
    color: T,
) -> ScreenView<T> {
    line_drawn(s, p1, p2, color, (line_steps(p1, p2) + 1) as nat)
}

/// An error accumulator that started at half the period, lost `extent` at
/// each of `k` steps and regained the period `n` times, and that lies within
/// the period, has made exactly the rounded share of corrections.
pub proof fn lemma_accumulator_share(k: int, extent: int, period: int, e: int, n: int)
    requires
        period > 0,
        e == period / 2 - k * extent + n * period,
        0 <= e < period,
    ensures
        n == rounded_share(k, extent, period),
{
    let a = k * extent - period / 2 + period - 1;
    assert(a == period * n + (period - 1 - e)) by (nonlinear_arith)
        requires
            a == k * extent - period / 2 + period - 1,
            e == period / 2 - k * extent + n * period,
    ;
    vstd::arithmetic::div_mod::lemma_fundamental_div_mod_converse(a, period, n, period - 1 - e);
}

/// The pixels that the line from `p1` to `p2` visits.
pub open spec fn line_pixels(p1: Point, p2: Point) -> Set<(int, int)> {
    Set::new(
        |q: (int, int)|
            exists|k: int|
                0 <= k <= line_steps(p1, p2) && q == (
                    #[trigger] line_point(p1, p2, k).0,
                    line_point(p1, p2, k).1,
                ),
    )
}

/// Whether no share of `extent` over `period` steps falls exactly halfway
/// between two whole numbers.
pub open spec fn tie_free(extent: int, period: int) -> bool {
    period <= 0 || period % 2 == 1 || forall|k: int|
        0 <= k <= period ==> #[trigger] ((k * extent) % period) != period / 2
}

/// A line from a point to itself is a single write at that point, and
/// changes nothing where the point lies off the screen.
pub proof fn lemma_point_line<T: Color>(s: ScreenView<T>, p: Point, color: T)
    ensures
        draw_line_spec(s, p, p, color) == s.plot(whole(p.0), whole(p.1), p.2, color),
        !s.in_bounds(whole(p.0), whole(p.1)) ==> draw_line_spec(s, p, p, color) == s,
        line_pixels(p, p) =~= set![(whole(p.0), whole(p.1))],
{
    assert(line_steps(p, p) == 0);
    assert(line_point(p, p, 0) == (whole(p.0), whole(p.1), p.2));
    assert(line_drawn(s, p, p, color, 0) == s);
    assert(line_drawn(s, p, p, color, 1) == line_drawn(s, p, p, color, 0).plot(
        whole(p.0),
        whole(p.1),
        p.2,
        color,
    ));
    assert(line_pixels(p, p).contains((whole(p.0), whole(p.1))));
}

/// Walking back from the far end by the shares of the remaining steps
/// arrives where walking forward does, as long as no share is a tie.
pub proof fn lemma_share_reversal(k: int, extent: int, period: int)
    requires
        period > 0,
        0 <= k <= period,
        0 <= extent,
        tie_free(extent, period),
    ensures
        rounded_share(k, extent, period) + rounded_share(period - k, extent, period) == extent,
{
    let h = period / 2;
    let a = k * extent;
    let fwd = a - h + period - 1;
    let q = fwd / period;
    let r = fwd % period;
    vstd::arithmetic::div_mod::lemma_fundamental_div_mod(fwd, period);
    assert(fwd == period * q + r);
    assert(0 <= r < period);
    let back = (period - k) * extent - h + period - 1;
    assert((period - k) * extent == period * extent - a) by (nonlinear_arith)
        requires
            a == k * extent,
    ;
    if period % 2 == 1 {
        assert(back == period * (extent - q) + (period - 1 - r)) by (nonlinear_arith)
            requires
                back == period * extent - a - h + period - 1,
                a - h + period - 1 == period * q + r,
                2 * h == period - 1,
        ;
        vstd::arithmetic::div_mod::lemma_fundamental_div_mod_converse(
            back,
            period,
            extent - q,
            period - 1 - r,
        );
    } else {
        assert(2 * h == period);
        // A remainder of `period - 1` would make the share of `k` a tie.
        if r == period - 1 {
            assert(a == period * (q - 1) + h + period) by (nonlinear_arith)
                requires
                    a - h + period - 1 == period * q + r,
                    r == period - 1,
            ;
            assert(a == period * q + h) by (nonlinear_arith)
                requires
                    a == period * (q - 1) + h + period,
            ;
            vstd::arithmetic::div_mod::lemma_fundamental_div_mod_converse(a, period, q, h);
            assert((k * extent) % period == period / 2);
            assert(false);
        }
        assert(back == period * (extent - q) + (period - 2 - r)) by (nonlinear_arith)
            requires
                back == period * extent - a - h + period - 1,
                a - h + period - 1 == period * q + r,
                2 * h == period,
        ;
        vstd::arithmetic::div_mod::lemma_fundamental_div_mod_converse(
            back,
            period,
            extent - q,
            period - 2 - r,
        );
    }
}

/// The number of steps does not depend on the direction of the line.
pub proof fn lemma_steps_symmetric(p1: Point, p2: Point)
    ensures
        line_steps(p1, p2) == line_steps(p2, p1),
        line_steps(p1, p2) >= 0,
{
    crate::scalar::lemma_trunc_div_bounds(raw_extent(p1.2, p2.2), ONE_RAW as int);
}

/// A line drawn from either end visits the same pixels, provided that no
/// share of its x or y extent is a tie.
pub proof fn lemma_line_symmetric(p1: Point, p2: Point)
    requires
        tie_free(magnitude(whole(p2.0) - whole(p1.0)), line_steps(p1, p2)),
        tie_free(magnitude(whole(p2.1) - whole(p1.1)), line_steps(p1, p2)),
    ensures
        line_pixels(p1, p2) == line_pixels(p2, p1),
{
    lemma_steps_symmetric(p1, p2);
    let steps = line_steps(p1, p2);
    assert forall|k: int| 0 <= k <= steps implies ({
        &&& line_point(p1, p2, k).0 == line_point(p2, p1, steps - k).0
        &&& line_point(p1, p2, k).1 == line_point(p2, p1, steps - k).1
    }) by {
        if steps > 0 {
            lemma_share_reversal(k, magnitude(whole(p2.0) - whole(p1.0)), steps);
            lemma_share_reversal(k, magnitude(whole(p2.1) - whole(p1.1)), steps);
        }
    }
    assert forall|q: (int, int)| line_pixels(p1, p2).contains(q) implies line_pixels(
        p2,
        p1,
    ).contains(q) by {
        let k = choose|k: int|
            0 <= k <= steps && q == (#[trigger] line_point(p1, p2, k).0, line_point(p1, p2, k).1);
        assert(q == (line_point(p2, p1, steps - k).0, line_point(p2, p1, steps - k).1));
    }
    assert forall|q: (int, int)| line_pixels(p2, p1).contains(q) implies line_pixels(
        p1,
        p2,
    ).contains(q) by {
        let k = choose|k: int|
            0 <= k <= steps && q == (#[trigger] line_point(p2, p1, k).0, line_point(p2, p1, k).1);
        let j = steps - k;
        assert(steps - j == k);
        assert(q == (line_point(p1, p2, j).0, line_point(p1, p2, j).1));
    }
    assert(line_pixels(p1, p2) =~= line_pixels(p2, p1));
}

/// An axis whose extent is the number of steps advances by one pixel at
/// every step, and every axis has covered its whole extent at the last
/// step.
pub proof fn lemma_share_ends(k: int, extent: int, period: int)
    requires
        period > 0,
        0 <= extent,
    ensures
        rounded_share(0, extent, period) == 0,
        rounded_share(period, extent, period) == extent,
        rounded_share(k, period, period) == k,
{
    let h = period / 2;
    assert(0 * extent == 0) by (nonlinear_arith);
    vstd::arithmetic::div_mod::lemma_fundamental_div_mod_converse(
        0 * extent - h + period - 1,
        period,
        0,
        period - 1 - h,
    );
    assert(period * extent - h + period - 1 == period * extent + (period - 1 - h));
    vstd::arithmetic::div_mod::lemma_fundamental_div_mod_converse(
        period * extent - h + period - 1,
        period,
        extent,
        period - 1 - h,
    );
    assert(k * period == period * k) by (nonlinear_arith);
    vstd::arithmetic::div_mod::lemma_fundamental_div_mod_converse(
        k * period - h + period - 1,
        period,
        k,
        period - 1 - h,
    );
}

/// A line starts on the pixel of its first end, with the depth of that
/// end, and ends on the pixel of its second end.
pub proof fn lemma_line_ends(p1: Point, p2: Point)
    ensures
        line_point(p1, p2, 0) == (whole(p1.0), whole(p1.1), p1.2),
        line_point(p1, p2, line_steps(p1, p2)).0 == whole(p2.0),
        line_point(p1, p2, line_steps(p1, p2)).1 == whole(p2.1),
        line_pixels(p1, p2).contains((whole(p1.0), whole(p1.1))),
        line_pixels(p1, p2).contains((whole(p2.0), whole(p2.1))),
{
    lemma_steps_symmetric(p1, p2);
    let steps = line_steps(p1, p2);
    let dx = magnitude(whole(p2.0) - whole(p1.0));
    let dy = magnitude(whole(p2.1) - whole(p1.1));
    let dz = raw_extent(p1.2, p2.2);
    let period = depth_period(p1, p2);
    if steps > 0 {
        lemma_share_ends(0, dx, steps);
        lemma_share_ends(0, dy, steps);
    }
    if period > 0 {
        lemma_share_ends(0, dz, period);
    }
    assert(line_point(p1, p2, 0).0 == whole(p1.0));
    assert(line_point(p1, p2, steps).0 == whole(p2.0));
}

/// Where the number of steps is the extent of the line along x or along y,
/// a tie makes the line differ from the line drawn from the other end: the
/// pixel at the tie is rounded toward the start of each.
pub proof fn lemma_tie_breaks_symmetry(p1: Point, p2: Point, k: int)
    requires
        line_steps(p1, p2) > 0,
        0 <= k <= line_steps(p1, p2),
        ({
            let dx = magnitude(whole(p2.0) - whole(p1.0));
            let dy = magnitude(whole(p2.1) - whole(p1.1));
            let steps = line_steps(p1, p2);
            ||| dx == steps && steps % 2 == 0 && (k * dy) % steps == steps / 2
            ||| dy == steps && steps % 2 == 0 && (k * dx) % steps == steps / 2
        }),
    ensures
        line_pixels(p1, p2) != line_pixels(p2, p1),
{
    lemma_steps_symmetric(p1, p2);
    let steps = line_steps(p1, p2);
    let dx = magnitude(whole(p2.0) - whole(p1.0));
    let dy = magnitude(whole(p2.1) - whole(p1.1));
    let q = (line_point(p1, p2, k).0, line_point(p1, p2, k).1);
    assert(line_pixels(p1, p2).contains(q));
    if line_pixels(p2, p1).contains(q) {
        let j = choose|j: int|
            0 <= j <= steps && q == (#[trigger] line_point(p2, p1, j).0, line_point(p2, p1, j).1);
        if dx == steps && steps % 2 == 0 && (k * dy) % steps == steps / 2 {
            // Along x both lines advance at every step, so `j` is the step
            // that mirrors `k`; along y the two then differ by one.
            lemma_share_ends(k, dx, steps);
            lemma_share_ends(j, dx, steps);
            assert(j == steps - k);
            lemma_share_at_tie(k, dy, steps);
        } else {
            lemma_share_ends(k, dy, steps);
            lemma_share_ends(j, dy, steps);
            assert(j == steps - k);
            lemma_share_at_tie(k, dx, steps);
        }
        assert(false);
    }
}

/// At a tie, walking back from the far end stops one short of where
/// walking forward arrives.
pub proof fn lemma_share_at_tie(k: int, extent: int, period: int)
    requires
        period > 0,
        period % 2 == 0,
        0 <= k <= period,
        0 <= extent,
        (k * extent) % period == period / 2,
    ensures
        rounded_share(k, extent, period) + rounded_share(period - k, extent, period) == extent
            - 1,
{
    let h = period / 2;
    let a = k * extent;
    let q = a / period;
    vstd::arithmetic::div_mod::lemma_fundamental_div_mod(a, period);
    assert(a == period * q + h);
    // forward: a - h + period - 1 = period * q + (period - 1)
    vstd::arithmetic::div_mod::lemma_fundamental_div_mod_converse(
        a - h + period - 1,
        period,
        q,
        period - 1,
    );
    let back = (period - k) * extent - h + period - 1;
    assert((period - k) * extent == period * extent - a) by (nonlinear_arith)
        requires
            a == k * extent,
    ;
    assert(back == period * (extent - q - 1) + (period - 1)) by (nonlinear_arith)
        requires
            back == period * extent - a - h + period - 1,
            a == period * q + h,
            2 * h == period,
    ;
    vstd::arithmetic::div_mod::lemma_fundamental_div_mod_converse(
        back,
        period,
        extent - q - 1,
        period - 1,
    );
}

/// The share covered grows with the number of steps taken.
pub proof fn lemma_share_monotone(j: int, k: int, extent: int, period: int)
    requires
        j <= k,
        0 <= extent,
    ensures
        rounded_share(j, extent, period) <= rounded_share(k, extent, period),
{
    if period > 0 {
        assert(j * extent <= k * extent) by (nonlinear_arith)
            requires
                j <= k,
                0 <= extent,
        ;
        vstd::arithmetic::div_mod::lemma_div_is_ordered(
            j * extent - period / 2 + period - 1,
            k * extent - period / 2 + period - 1,
            period,
        );
    }
}

/// The depth runs in one direction along a line: it never falls on the way
/// to a nearer end and never rises on the way to a farther one.
pub proof fn lemma_line_depth_monotone(p1: Point, p2: Point, j: int, k: int)
    requires
        0 <= j <= k,
    ensures
        p1.2@ <= p2.2@ ==> line_point(p1, p2, j).2@ <= line_point(p1, p2, k).2@,
        p1.2@ >= p2.2@ ==> line_point(p1, p2, j).2@ >= line_point(p1, p2, k).2@,
{
    lemma_share_monotone(j, k, raw_extent(p1.2, p2.2), depth_period(p1, p2));
}

/// A line changes neither the size of the screen nor the number of its
/// cells.
pub proof fn lemma_line_keeps_grid<T: Color>(
    s: ScreenView<T>,
    p1: Point,
    p2: Point,
    color: T,
    n: nat,
)
    requires
        s.wf(),
    ensures
        line_drawn(s, p1, p2, color, n).wf(),
        line_drawn(s, p1, p2, color, n).width == s.width,
        line_drawn(s, p1, p2, color, n).height == s.height,
    decreases n,
{
    if n > 0 {
        lemma_line_keeps_grid(s, p1, p2, color, (n - 1) as nat);
        let q = line_point(p1, p2, n - 1);
        crate::screen::raster::lemma_plot_keeps_grid(
            line_drawn(s, p1, p2, color, (n - 1) as nat),
            q.0,
            q.1,
            q.2,
            color,
        );
    }
}

impl<T: Color> Screen<T> {
    /// Draws the line from `p1` to `p2`, both endpoints included. Pixels
    /// that do not lie on the screen are skipped.
    pub fn draw_line(&mut self, p1: Point, p2: Point, color: T)
        ensures
            final(self)@ == draw_line_spec(old(self)@, p1, p2, color),
    {
        let x1: i64 = p1.0.trunc();
        let x2: i64 = p2.0.trunc();
        let y1: i64 = p1.1.trunc();
        let y2: i64 = p2.1.trunc();

        let dx: i64 = if x2 >= x1 { x2 - x1 } else { x1 - x2 };
        let dy: i64 = if y2 >= y1 { y2 - y1 } else { y1 - y2 };
        let rise: Scalar = p2.2.sub(p1.2);
        let dz: Scalar = rise.abs();
        let sx: i64 = if x2 > x1 { 1 } else if x2 < x1 { -1 } else { 0 };
        let sy: i64 = if y2 > y1 { 1 } else if y2 < y1 { -1 } else { 0 };
        let sz: Scalar = rise.signum();

        let dzw: i64 = dz.trunc();
        let dm: i64 = if dx >= dy && dx >= dzw { dx } else if dy >= dzw { dy } else { dzw };
        let dmf: Scalar = p2.0.sub(p1.0).abs().max(p2.1.sub(p1.1).abs()).max(dz);
        assert(dm == line_steps(p1, p2));
        assert(dmf@ == depth_period(p1, p2));
        assert(dz@ == raw_extent(p1.2, p2.2));
        assert(0 <= dz@ <= dmf@);

        let mut x: i64 = x1;
        let mut y: i64 = y1;
        let mut z: Scalar = p1.2;
        let mut ex: i64 = dm / 2;
        let mut ey: i64 = dm / 2;
        let mut ez: i64 = dmf.raw / 2;
        let ghost mut nx: int = 0;
        let ghost mut ny: int = 0;
        let ghost mut nz: int = 0;
        let mut k: i64 = 0;
        while k <= dm
            invariant
                0 <= k <= dm + 1,
                0 <= dm <= 0x1_0000_0000_0000,
                dm == line_steps(p1, p2),
                dmf@ == depth_period(p1, p2),
                dz@ == raw_extent(p1.2, p2.2),
                x1 == whole(p1.0),
                x2 == whole(p2.0),
                y1 == whole(p1.1),
                y2 == whole(p2.1),
                dx == magnitude(x2 - x1),
                dy == magnitude(y2 - y1),
                0 <= dx <= dm,
                0 <= dy <= dm,
                0 <= dz@ <= dmf@,
                sx == (if x2 > x1 { 1int } else if x2 < x1 { -1int } else { 0int }),
                sy == (if y2 > y1 { 1int } else if y2 < y1 { -1int } else { 0int }),
                rise@ == clamp64(p2.2@ - p1.2@),
                sz@ == (if rise@ > 0 { ONE_RAW as int } else if rise@ < 0 { -ONE_RAW as int } else { 0int }),
                -0x8000_0000_0000 <= x1 <= 0x8000_0000_0000,
                -0x8000_0000_0000 <= y1 <= 0x8000_0000_0000,
                0 <= nx <= k,
                0 <= ny <= k,
                0 <= nz <= k,
                dx == 0 ==> nx == 0,
                dy == 0 ==> ny == 0,
                dz@ == 0 ==> nz == 0,
                ex == dm / 2 - k * dx + nx * dm,
                ey == dm / 2 - k * dy + ny * dm,
                ez == dmf@ / 2 - k * dz@ + nz * dmf@,
                0 <= ex,
                0 <= ey,
                0 <= ez,
                ex < dm || dm == 0,
                ey < dm || dm == 0,
                ez < dmf@ || dmf@ == 0,
                x == toward(x1 as int, x2 as int, nx),
                y == toward(y1 as int, y2 as int, ny),
                z == depth_toward(p1, p2, nz),
                self@ == line_drawn(old(self)@, p1, p2, color, k as nat),
            decreases dm + 1 - k,
        {
            proof {
                if dm > 0 {
                    lemma_accumulator_share(k as int, dx as int, dm as int, ex as int, nx);
                    lemma_accumulator_share(k as int, dy as int, dm as int, ey as int, ny);
                }
                if dmf@ > 0 {
                    lemma_accumulator_share(k as int, dz@, dmf@, ez as int, nz);
                }
                assert(line_point(p1, p2, k as int) == (x as int, y as int, z));
            }
            self.plot(x, y, z, color);

            proof {
                assert((k + 1) * dx == k * dx + dx) by (nonlinear_arith);
                assert((k + 1) * dy == k * dy + dy) by (nonlinear_arith);
                assert((k + 1) * dz@ == k * dz@ + dz@) by (nonlinear_arith);
                assert((nx + 1) * dm == nx * dm + dm) by (nonlinear_arith);
                assert((ny + 1) * dm == ny * dm + dm) by (nonlinear_arith);
                assert((nz + 1) * dmf@ == nz * dmf@ + dmf@) by (nonlinear_arith);
            }
            ex = ex - dx;
            ey = ey - dy;
            ez = ez - dz.raw;
            if ex < 0 {
                ex = ex + dm;
                x = x + sx;
                proof {
                    nx = nx + 1;
                }
            }
            if ey < 0 {
                ey = ey + dm;
                y = y + sy;
                proof {
                    ny = ny + 1;
                }
            }
            if ez < 0 {
                ez = ez + dmf.raw;
                z = z.add(sz);
                proof {
                    nz = nz + 1;
                }
            }
            k = k + 1;
        }
    }
}

} // verus!
