//! The geometry accumulator: line and triangle buffers with the lighting
//! state of the scene.
use crate::scalar::{Scalar, ONE_RAW};
use crate::screen::color::Color;
use crate::space::light::Light;
use crate::space::modtrix::{dot4, dot4_exec, Modtrix};
use crate::space::Point;
use vstd::prelude::*;

verus! {

/// A point in homogeneous coordinates `(x, y, z, w)`.
pub type Vertex = [Scalar; 4];

/// The point `p` with a fourth coordinate of one.
pub open spec fn homogeneous(p: Point) -> Vertex {
    [p.0, p.1, p.2, Scalar { raw: ONE_RAW }]
}

/// The first three coordinates of `v`.
pub open spec fn position(v: Vertex) -> Point {
    (v[0], v[1], v[2])
}

/// Row `i` of `m` times the column `v`.
pub open spec fn transformed_coordinate(m: Modtrix, v: Vertex, i: int) -> Scalar {
    dot4(v[0], m.store[i][0], v[1], m.store[i][1], v[2], m.store[i][2], v[3], m.store[i][3])
}

/// The vertex `m * v`.
pub open spec fn transformed(m: Modtrix, v: Vertex) -> Vertex {
    [
        transformed_coordinate(m, v, 0),
        transformed_coordinate(m, v, 1),
        transformed_coordinate(m, v, 2),
        transformed_coordinate(m, v, 3),
    ]
}

/// Both ends of the line multiplied by `m`.
pub open spec fn transformed_line(m: Modtrix, l: (Vertex, Vertex)) -> (Vertex, Vertex) {
    (transformed(m, l.0), transformed(m, l.1))
}

/// The three corners of the triangle multiplied by `m`.
pub open spec fn transformed_triangle(m: Modtrix, t: (Vertex, Vertex, Vertex)) -> (
    Vertex,
    Vertex,
    Vertex,
) {
    (transformed(m, t.0), transformed(m, t.1), transformed(m, t.2))
}

/// The mathematical content of a space.
pub struct SpaceView<T: Color> {
    /// The line buffer: the two ends of each line.
    pub lines: Seq<(Vertex, Vertex)>,
    /// The triangle buffer: the three corners of each triangle, running
    /// counter-clockwise as seen from the camera.
    pub triangles: Seq<(Vertex, Vertex, Vertex)>,
    pub lights: Seq<Light<T>>,
    pub ambient_light: T,
    pub ambient_reflection: (Scalar, Scalar, Scalar),
    pub diffuse_reflection: (Scalar, Scalar, Scalar),
    pub specular_reflection: (Scalar, Scalar, Scalar),
    pub camera: Point,
}

impl<T: Color> SpaceView<T> {
    /// The space with every stored vertex multiplied by `m`. Lights and
    /// coefficients stay as they are.
    pub open spec fn apply(self, m: Modtrix) -> SpaceView<T> {
        SpaceView {
            lines: Seq::new(self.lines.len(), |i: int| transformed_line(m, self.lines[i])),
            triangles: Seq::new(
                self.triangles.len(),
                |i: int| transformed_triangle(m, self.triangles[i]),
            ),
            ..self
        }
    }

    /// The empty space: no geometry, no lights, a black ambient light,
    /// reflection coefficients of zero and the camera looking down the z
    /// axis.
    pub open spec fn empty() -> SpaceView<T> {
        SpaceView {
            lines: Seq::empty(),
            triangles: Seq::empty(),
            lights: Seq::empty(),
            ambient_light: T::spec_black(),
            ambient_reflection: (Scalar { raw: 0 }, Scalar { raw: 0 }, Scalar { raw: 0 }),
            diffuse_reflection: (Scalar { raw: 0 }, Scalar { raw: 0 }, Scalar { raw: 0 }),
            specular_reflection: (Scalar { raw: 0 }, Scalar { raw: 0 }, Scalar { raw: 0 }),
            camera: (Scalar { raw: 0 }, Scalar { raw: 0 }, Scalar { raw: ONE_RAW }),
        }
    }
}

/// The vertex `m * v`.
pub fn transform_vertex(m: &Modtrix, v: &Vertex) -> (r: Vertex)
    ensures
        r == transformed(*m, *v),
{
    let r: Vertex = [
        dot4_exec(v[0], m.store[0][0], v[1], m.store[0][1], v[2], m.store[0][2], v[3], m.store[0][3]),
        dot4_exec(v[0], m.store[1][0], v[1], m.store[1][1], v[2], m.store[1][2], v[3], m.store[1][3]),
        dot4_exec(v[0], m.store[2][0], v[1], m.store[2][1], v[2], m.store[2][2], v[3], m.store[2][3]),
        dot4_exec(v[0], m.store[3][0], v[1], m.store[3][1], v[2], m.store[3][2], v[3], m.store[3][3]),
    ];
    assert(r =~= transformed(*m, *v));
    r
}

/// The point `p` with a fourth coordinate of one.
pub fn to_vertex(p: Point) -> (v: Vertex)
    ensures
        v == homogeneous(p),
{
    let v: Vertex = [p.0, p.1, p.2, Scalar::one()];
    assert(v =~= homogeneous(p));
    v
}

/// A space where lines, triangles and lights can be added, to be drawn to
/// a screen.
pub struct Space<T: Color> {
    lin_space: Vec<(Vertex, Vertex)>,
    tri_space: Vec<(Vertex, Vertex, Vertex)>,
    lights: Vec<Light<T>>,
    ambient_light: T,
    ambient_reflection: (Scalar, Scalar, Scalar),
    diffuse_reflection: (Scalar, Scalar, Scalar),
    specular_reflection: (Scalar, Scalar, Scalar),
    camera: Point,
}

impl<T: Color> View for Space<T> {
    type V = SpaceView<T>;

    closed spec fn view(&self) -> SpaceView<T> {
        SpaceView {
            lines: self.lin_space@,
            triangles: self.tri_space@,
            lights: self.lights@,
            ambient_light: self.ambient_light,
            ambient_reflection: self.ambient_reflection,
            diffuse_reflection: self.diffuse_reflection,
            specular_reflection: self.specular_reflection,
            camera: self.camera,
        }
    }
}

impl<T: Color> Space<T> {
    /// An empty space with room for `columns` lines, triangles and lights.
    pub fn with_capacity(columns: usize) -> (s: Self)
        ensures
            s@ == SpaceView::<T>::empty(),
    {
        Space {
            lin_space: Vec::with_capacity(columns),
            tri_space: Vec::with_capacity(columns),
            lights: Vec::with_capacity(columns),
            ambient_light: T::black(),
            ambient_reflection: (Scalar::zero(), Scalar::zero(), Scalar::zero()),
            diffuse_reflection: (Scalar::zero(), Scalar::zero(), Scalar::zero()),
            specular_reflection: (Scalar::zero(), Scalar::zero(), Scalar::zero()),
            camera: (Scalar::zero(), Scalar::zero(), Scalar::one()),
        }
    }

    /// An empty space.
    pub fn new() -> (s: Self)
        ensures
            s@ == SpaceView::<T>::empty(),
    {
        Self::with_capacity(0)
    }

    /// The line buffer.
    pub fn lines(&self) -> (r: &Vec<(Vertex, Vertex)>)
        ensures
            r@ == self@.lines,
    {
        &self.lin_space
    }

    /// The triangle buffer.
    pub fn triangles(&self) -> (r: &Vec<(Vertex, Vertex, Vertex)>)
        ensures
            r@ == self@.triangles,
    {
        &self.tri_space
    }

    /// The point lights.
    pub fn lights(&self) -> (r: &Vec<Light<T>>)
        ensures
            r@ == self@.lights,
    {
        &self.lights
    }

    /// The color of the ambient light.
    pub fn ambient_light(&self) -> (r: T)
        ensures
            r == self@.ambient_light,
    {
        self.ambient_light
    }

    /// How much of the ambient light the surfaces reflect, channel by channel.
    pub fn ambient_reflection(&self) -> (r: (Scalar, Scalar, Scalar))
        ensures
            r == self@.ambient_reflection,
    {
        self.ambient_reflection
    }

    /// How much of a point light the surfaces reflect diffusely, channel by
    /// channel.
    pub fn diffuse_reflection(&self) -> (r: (Scalar, Scalar, Scalar))
        ensures
            r == self@.diffuse_reflection,
    {
        self.diffuse_reflection
    }

    /// How much of a point light the surfaces reflect as a highlight, channel
    /// by channel.
    pub fn specular_reflection(&self) -> (r: (Scalar, Scalar, Scalar))
        ensures
            r == self@.specular_reflection,
    {
        self.specular_reflection
    }

    /// The direction from the scene toward the camera.
    pub fn camera(&self) -> (r: Point)
        ensures
            r == self@.camera,
    {
        self.camera
    }

    /// Adds the line from `p` to `q`.
    pub fn add_line(&mut self, p: Point, q: Point)
        ensures
            final(self)@ == (SpaceView {
                lines: old(self)@.lines.push((homogeneous(p), homogeneous(q))),
                ..old(self)@
            }),
    {
        self.lin_space.push((to_vertex(p), to_vertex(q)));
    }

    /// Adds the triangle with corners `p`, `q` and `r`, which are to run
    /// counter-clockwise as seen from the camera.
    pub fn add_tri(&mut self, p: Point, q: Point, r: Point)
        ensures
            final(self)@ == (SpaceView {
                triangles: old(self)@.triangles.push(
                    (homogeneous(p), homogeneous(q), homogeneous(r)),
                ),
                ..old(self)@
            }),
    {
        self.tri_space.push((to_vertex(p), to_vertex(q), to_vertex(r)));
    }

    /// Adds a point light.
    pub fn add_light(&mut self, l: Light<T>)
        ensures
            final(self)@ == (SpaceView { lights: old(self)@.lights.push(l), ..old(self)@ }),
    {
        self.lights.push(l);
    }

    /// Replaces the color of the ambient light.
    pub fn set_ambient_light(&mut self, color: T)
        ensures
            final(self)@ == (SpaceView { ambient_light: color, ..old(self)@ }),
    {
        self.ambient_light = color;
    }

    /// Replaces the ambient reflection coefficients.
    pub fn set_ambient_reflection(&mut self, k: (Scalar, Scalar, Scalar))
        ensures
            final(self)@ == (SpaceView { ambient_reflection: k, ..old(self)@ }),
    {
        self.ambient_reflection = k;
    }

    /// Replaces the diffuse reflection coefficients.
    pub fn set_diffuse_reflection(&mut self, k: (Scalar, Scalar, Scalar))
        ensures
            final(self)@ == (SpaceView { diffuse_reflection: k, ..old(self)@ }),
    {
        self.diffuse_reflection = k;
    }

    /// Replaces the specular reflection coefficients.
    pub fn set_specular_reflection(&mut self, k: (Scalar, Scalar, Scalar))
        ensures
            final(self)@ == (SpaceView { specular_reflection: k, ..old(self)@ }),
    {
        self.specular_reflection = k;
    }

    /// Replaces the direction toward the camera.
    pub fn set_camera(&mut self, p: Point)
        ensures
            final(self)@ == (SpaceView { camera: p, ..old(self)@ }),
    {
        self.camera = p;
    }

    /// Drops every line.
    pub fn clear_lines(&mut self)
        ensures
            final(self)@ == (SpaceView { lines: Seq::empty(), ..old(self)@ }),
    {
        self.lin_space.clear();
    }

    /// Drops every triangle.
    pub fn clear_tris(&mut self)
        ensures
            final(self)@ == (SpaceView { triangles: Seq::empty(), ..old(self)@ }),
    {
        self.tri_space.clear();
    }

    /// Multiplies every stored vertex by `transform`.
    pub fn apply(&mut self, transform: &Modtrix)
        ensures
            final(self)@ == old(self)@.apply(*transform),
    {
        let line_count: usize = self.lin_space.len();
        let mut i: usize = 0;
        while i < line_count
            invariant
                i <= line_count,
                self.lin_space@.len() == line_count,
                old(self).lin_space@.len() == line_count,
                self.tri_space == old(self).tri_space,
                self.lights == old(self).lights,
                self.ambient_light == old(self).ambient_light,
                self.ambient_reflection == old(self).ambient_reflection,
                self.diffuse_reflection == old(self).diffuse_reflection,
                self.specular_reflection == old(self).specular_reflection,
                self.camera == old(self).camera,
                forall|j: int|
                    0 <= j < i ==> self.lin_space@[j] == transformed_line(
                        *transform,
                        old(self).lin_space@[j],
                    ),
                forall|j: int| i <= j < line_count ==> self.lin_space@[j] == old(self).lin_space@[j],
            decreases line_count - i,
        {
            let l: (Vertex, Vertex) = self.lin_space[i];
            self.lin_space[i] = (transform_vertex(transform, &l.0), transform_vertex(transform, &l.1));
            i = i + 1;
        }
        let tri_count: usize = self.tri_space.len();
        let mut i: usize = 0;
        while i < tri_count
            invariant
                i <= tri_count,
                self.tri_space@.len() == tri_count,
                old(self).tri_space@.len() == tri_count,
                self.lin_space@ =~= old(self)@.apply(*transform).lines,
                self.lights == old(self).lights,
                self.ambient_light == old(self).ambient_light,
                self.ambient_reflection == old(self).ambient_reflection,
                self.diffuse_reflection == old(self).diffuse_reflection,
                self.specular_reflection == old(self).specular_reflection,
                self.camera == old(self).camera,
                forall|j: int|
                    0 <= j < i ==> self.tri_space@[j] == transformed_triangle(
                        *transform,
                        old(self).tri_space@[j],
                    ),
                forall|j: int| i <= j < tri_count ==> self.tri_space@[j] == old(self).tri_space@[j],
            decreases tri_count - i,
        {
            let t: (Vertex, Vertex, Vertex) = self.tri_space[i];
            self.tri_space[i] = (
                transform_vertex(transform, &t.0),
                transform_vertex(transform, &t.1),
                transform_vertex(transform, &t.2),
            );
            i = i + 1;
        }
        assert(self.tri_space@ =~= old(self)@.apply(*transform).triangles);
    }
}

} // verus!
