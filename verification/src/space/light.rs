//! Point light sources.
use crate::screen::color::Color;
use crate::space::Point;
use vstd::prelude::*;

verus! {

/// A point light source: where it stands and the color it sheds. The
/// ambient light is no `Light`; it is a color alone.
pub struct Light<T: Color> {
    pub pos: Point,
    pub col: T,
}

impl<T: Color> Clone for Light<T> {
    fn clone(&self) -> (l: Self)
        ensures
            l == *self,
    {
        Light { pos: self.pos, col: self.col }
    }
}

impl<T: Color> Copy for Light<T> {

}

impl<T: Color> Light<T> {
    /// The light at `pos` that sheds the color `col`.
    pub fn new(pos: Point, col: T) -> (l: Self)
        ensures
            l.pos == pos,
            l.col == col,
    {
        Light { pos, col }
    }
}

} // verus!
