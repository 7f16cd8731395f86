//! The pixel grid and its depth-tested writes.
use crate::scalar::{clamp64, Scalar};
use crate::screen::color::Color;
use vstd::prelude::*;

verus! {

/// How far, in raw counts, a depth may lie behind the stored one and still
/// replace it.
pub const Z_RESOLUTION_RAW: i64 = 0;

/// One pixel: its color and the depth at which that color was drawn.
pub struct Cell<T> {
    pub color: T,
    pub depth: Scalar,
}

/// Whether a write at depth `z` replaces a pixel that holds depth `current`.
pub open spec fn depth_passes(current: int, z: int) -> bool {
    clamp64(current - z) < Z_RESOLUTION_RAW as int
}

/// The mathematical content of a screen: `cells[y * width + x]` is the pixel
/// in column `x` of row `y`, row 0 being the bottom of the image.
pub struct ScreenView<T> {
    pub width: int,
    pub height: int,
    pub cells: Seq<Cell<T>>,
}

impl<T: Color> ScreenView<T> {
    /// Whether there is exactly one cell for each pixel of the grid.
    pub open spec fn wf(self) -> bool {
        &&& 0 <= self.width
        &&& 0 <= self.height
        &&& self.cells.len() == self.width * self.height
    }

    /// Whether `(x, y)` is a pixel of the grid.
    pub open spec fn in_bounds(self, x: int, y: int) -> bool {
        0 <= x < self.width && 0 <= y < self.height
    }

    /// The index of the cell of the pixel `(x, y)`.
    pub open spec fn index(self, x: int, y: int) -> int {
        y * self.width + x
    }

    /// The pixel in column `x` of row `y`.
    pub open spec fn cell(self, x: int, y: int) -> Cell<T>
        recommends
            self.in_bounds(x, y),
    {
        self.cells[self.index(x, y)]
    }

    /// The screen after a write of `color` at `(x, y)` with depth `z`: a
    /// write outside the grid, or one that fails the depth test, changes
    /// nothing; any other replaces the pixel's color and depth together.
    pub open spec fn plot(self, x: int, y: int, z: Scalar, color: T) -> ScreenView<T> {
        if self.in_bounds(x, y) && depth_passes(self.cell(x, y).depth@, z@) {
            ScreenView {
                width: self.width,
                height: self.height,
                cells: self.cells.update(self.index(x, y), Cell { color, depth: z }),
            }
        } else {
            self
        }
    }

    /// The cleared screen of the given size: every pixel black and
    /// infinitely far away.
    pub open spec fn blank(width: int, height: int) -> ScreenView<T> {
        ScreenView {
            width,
            height,
            cells: Seq::new(
                (width * height) as nat,
                |i: int| Cell { color: T::spec_black(), depth: Scalar { raw: i64::MIN } },
            ),
        }
    }
}

/// Each pixel of the grid has an index of its own below `width * height`.
pub proof fn lemma_index_in_range(width: int, height: int, x: int, y: int)
    requires
        0 <= x < width,
        0 <= y < height,
    ensures
        0 <= y * width + x < width * height,
        y * width <= y * width + x,
{
    assert(y * width >= 0) by (nonlinear_arith)
        requires
            y >= 0,
            width >= 0,
    ;
    assert(y * width + width <= height * width) by (nonlinear_arith)
        requires
            y + 1 <= height,
            width >= 0,
    ;
    assert(height * width == width * height) by (nonlinear_arith);
}

/// A write changes neither the size of the screen nor the number of its
/// cells.
pub proof fn lemma_plot_keeps_grid<T: Color>(s: ScreenView<T>, x: int, y: int, z: Scalar, color: T)
    requires
        s.wf(),
    ensures
        s.plot(x, y, z, color).wf(),
        s.plot(x, y, z, color).width == s.width,
        s.plot(x, y, z, color).height == s.height,
{
    if s.in_bounds(x, y) {
        lemma_index_in_range(s.width, s.height, x, y);
    }
}

/// A depth passes the test exactly when it is strictly greater than the
/// stored one.
pub proof fn lemma_depth_passes_is_less(current: Scalar, z: Scalar)
    ensures
        depth_passes(current@, z@) <==> current@ < z@,
{
}

/// Screen containing a grid of colors, each with the depth it was drawn at.
pub struct Screen<T: Color> {
    cells: Vec<Cell<T>>,
    width: usize,
    height: usize,
}

impl<T: Color> View for Screen<T> {
    type V = ScreenView<T>;

    closed spec fn view(&self) -> ScreenView<T> {
        ScreenView { width: self.width as int, height: self.height as int, cells: self.cells@ }
    }
}

impl<T: Color> Screen<T> {
    #[verifier::type_invariant]
    spec fn well_formed(self) -> bool {
        self.cells@.len() == self.width * self.height
    }

    /// A cleared screen of `width` by `height` pixels.
    pub fn with_size(width: usize, height: usize) -> (s: Screen<T>)
        requires
            width * height <= usize::MAX,
        ensures
            s@ == ScreenView::<T>::blank(width as int, height as int),
            s@.wf(),
    {
        let count: usize = width * height;
        let mut cells: Vec<Cell<T>> = Vec::new();
        let mut i: usize = 0;
        while i < count
            invariant
                i <= count,
                cells@.len() == i,
                forall|j: int|
                    0 <= j < i ==> cells@[j] == (Cell {
                        color: T::spec_black(),
                        depth: Scalar { raw: i64::MIN },
                    }),
            decreases count - i,
        {
            cells.push(Cell { color: T::black(), depth: Scalar::neg_infinity() });
            i = i + 1;
        }
        let s = Screen { cells, width, height };
        assert(s@.cells =~= ScreenView::<T>::blank(width as int, height as int).cells);
        s
    }

    /// The number of columns.
    pub fn width(&self) -> (w: usize)
        ensures
            w == self@.width,
            self@.wf(),
    {
        proof {
            use_type_invariant(self);
        }
        self.width
    }

    /// The number of rows.
    pub fn height(&self) -> (h: usize)
        ensures
            h == self@.height,
            self@.wf(),
    {
        proof {
            use_type_invariant(self);
        }
        self.height
    }

    /// Clears the screen: every pixel black and infinitely far away.
    pub fn clear(&mut self)
        ensures
            final(self)@ == ScreenView::<T>::blank(old(self)@.width, old(self)@.height),
    {
        proof {
            use_type_invariant(&*self);
        }
        let count: usize = self.cells.len();
        let mut i: usize = 0;
        while i < count
            invariant
                i <= count,
                self.cells@.len() == count,
                self.width == old(self).width,
                self.height == old(self).height,
                count == self.width * self.height,
                forall|j: int|
                    0 <= j < i ==> self.cells@[j] == (Cell {
                        color: T::spec_black(),
                        depth: Scalar { raw: i64::MIN },
                    }),
            decreases count - i,
        {
            self.cells[i] = Cell { color: T::black(), depth: Scalar::neg_infinity() };
            i = i + 1;
        }
        assert(self@.cells =~= ScreenView::<T>::blank(
            old(self)@.width,
            old(self)@.height,
        ).cells);
    }

    /// The number of pixels.
    pub fn cell_count(&self) -> (n: usize)
        ensures
            n == self@.cells.len(),
            self@.wf(),
    {
        proof {
            use_type_invariant(self);
        }
        self.cells.len()
    }

    /// The color of the pixel with index `i`, counted row by row from the
    /// bottom left.
    pub fn color_at_index(&self, i: usize) -> (c: T)
        requires
            i < self@.cells.len(),
        ensures
            c == self@.cells[i as int].color,
    {
        self.cells[i].color
    }

    /// The color and depth of the pixel at `(x, y)`, if it lies on the grid.
    pub fn pixel(&self, x: usize, y: usize) -> (r: Option<(T, Scalar)>)
        ensures
            self@.in_bounds(x as int, y as int) ==> r == Some(
                (self@.cell(x as int, y as int).color, self@.cell(x as int, y as int).depth),
            ),
            !self@.in_bounds(x as int, y as int) ==> r.is_none(),
    {
        proof {
            use_type_invariant(self);
        }
        let count: usize = self.cells.len();
        if x < self.width && y < self.height {
            proof {
                lemma_index_in_range(self.width as int, self.height as int, x as int, y as int);
            }
            let i: usize = y * self.width + x;
            Some((self.cells[i].color, self.cells[i].depth))
        } else {
            None
        }
    }

    /// Writes `color` at `(x, y)` with depth `z`, unless the pixel lies
    /// outside the grid or the depth test fails.
    pub fn plot(&mut self, x: i64, y: i64, z: Scalar, color: T)
        ensures
            final(self)@ == old(self)@.plot(x as int, y as int, z, color),
    {
        proof {
            use_type_invariant(&*self);
        }
        let count: usize = self.cells.len();
        if x >= 0 && y >= 0 {
            if (x as u64) < self.width as u64 && (y as u64) < self.height as u64 {
                let cx: usize = x as usize;
                let cy: usize = y as usize;
                proof {
                    lemma_index_in_range(
                        self.width as int,
                        self.height as int,
                        cx as int,
                        cy as int,
                    );
                }
                let i: usize = cy * self.width + cx;
                if self.cells[i].depth.sub(z).raw < Z_RESOLUTION_RAW {
                    self.cells[i] = Cell { color, depth: z };
                }
            }
        }
    }
}

} // verus!
