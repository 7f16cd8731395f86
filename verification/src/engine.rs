//! The engine: a stack of coordinate frames, a space and a screen, driven
//! one command at a time.
use crate::draw::{
    box_triangles, cos_of, sin_of, sphere_mesh, sphere_points_spec, torus_mesh, torus_points_spec,
    RESOLUTION,
};
use crate::error::{ConfigurationError, EncodingError};
use crate::knob::{track_of, vary_error, with_vary, KnobTable};
use crate::scalar::{Scalar, ONE_RAW};
use crate::screen::color::Color;
use crate::screen::ppm::{all_in_range, encoded, in_range};
use crate::screen::raster::{Screen, ScreenView};
use crate::space::geometry::{homogeneous, Space, SpaceView};
use crate::space::light::Light;
use crate::space::modtrix::{
    dilation, identity, move_matrix, rotation_x, rotation_y, rotation_z, rotx_matrix, roty_matrix,
    rotz_matrix, scale_matrix, translation, Modtrix,
};
use crate::space::render::draw_space_spec;
use crate::space::stack::{composed, popped, pushed, TransformStack};
use crate::trig::{cosine, sine};
use vstd::prelude::*;

verus! {

/// The mathematical content of an engine.
pub struct EngineView<T: Color> {
    /// The coordinate frames from the base to the current one.
    pub stack: Seq<Modtrix>,
    pub space: SpaceView<T>,
    pub screen: ScreenView<T>,
    /// The name and the track of each knob.
    pub knobs: Seq<(Seq<char>, Seq<Scalar>)>,
}

/// The rotation about the axis numbered `axis` by `theta` degrees, or
/// `None` where `axis` is none of 0 (x), 1 (y) and 2 (z).
pub open spec fn rotation(axis: Scalar, theta: Scalar) -> Option<Modtrix> {
    if axis@ == 0 {
        Some(rotation_x(sin_of(theta), cos_of(theta)))
    } else if axis@ == ONE_RAW {
        Some(rotation_y(sin_of(theta), cos_of(theta)))
    } else if axis@ == 2 * ONE_RAW {
        Some(rotation_z(sin_of(theta), cos_of(theta)))
    } else {
        None
    }
}

/// The renderer: it owns the stack of coordinate frames, the space, the
/// screen and the knobs of an animation.
pub struct Engine<T: Color> {
    stack: TransformStack,
    space: Space<T>,
    screen: Screen<T>,
    frames: KnobTable,
}

impl<T: Color> View for Engine<T> {
    type V = EngineView<T>;

    closed spec fn view(&self) -> EngineView<T> {
        EngineView {
            stack: self.stack@,
            space: self.space@,
            screen: self.screen@,
            knobs: self.frames@,
        }
    }
}

impl<T: Color> Engine<T> {
    /// An engine with a cleared screen of the given size, an empty space,
    /// the identity as its only frame and no knobs.
    pub fn with_screen_dims(screen_width: usize, screen_height: usize) -> (e: Self)
        requires
            screen_width * screen_height <= usize::MAX,
        ensures
            e@ == (EngineView {
                stack: seq![identity()],
                space: SpaceView::<T>::empty(),
                screen: ScreenView::<T>::blank(screen_width as int, screen_height as int),
                knobs: Seq::empty(),
            }),
    {
        Engine {
            stack: TransformStack::new(),
            space: Space::new(),
            screen: Screen::<T>::with_size(screen_width, screen_height),
            frames: KnobTable::new(),
        }
    }

    /// The screen.
    pub fn screen(&self) -> (s: &Screen<T>)
        ensures
            s@ == self@.screen,
    {
        &self.screen
    }

    /// The space.
    pub fn space(&self) -> (s: &Space<T>)
        ensures
            s@ == self@.space,
    {
        &self.space
    }

    /// The current coordinate frame.
    pub fn current_frame(&self) -> (m: &Modtrix)
        ensures
            self@.stack.len() >= 1,
            *m == self@.stack.last(),
    {
        proof {
            self.stack.lemma_never_empty();
        }
        self.stack.top()
    }

    /// Sets the reflection constants of the space, given as
    /// `[Ka_r, Ka_g, Ka_b, Kd_r, Kd_g, Kd_b, Ks_r, Ks_g, Ks_b]`.
    pub fn set_constants(&mut self, constants: [Scalar; 9])
        ensures
            final(self)@ == (EngineView {
                space: SpaceView {
                    ambient_reflection: (constants[0], constants[1], constants[2]),
                    diffuse_reflection: (constants[3], constants[4], constants[5]),
                    specular_reflection: (constants[6], constants[7], constants[8]),
                    ..old(self)@.space
                },
                ..old(self)@
            }),
    {
        self.space.set_ambient_reflection((constants[0], constants[1], constants[2]));
        self.space.set_diffuse_reflection((constants[3], constants[4], constants[5]));
        self.space.set_specular_reflection((constants[6], constants[7], constants[8]));
    }

    /// Opens a new coordinate frame that starts out as the current one.
    pub fn push_sys(&mut self)
        ensures
            final(self)@ == (EngineView { stack: pushed(old(self)@.stack), ..old(self)@ }),
    {
        self.stack.push();
    }

    /// Goes back to the coordinate frame below the current one. Fails, and
    /// changes nothing, where the current frame is the base frame.
    pub fn pop_sys(&mut self) -> (r: Result<(), ConfigurationError>)
        ensures
            popped(old(self)@.stack) matches Some(rest) ==> r.is_ok() && final(self)@ == (EngineView {
                stack: rest,
                ..old(self)@
            }),
            popped(old(self)@.stack).is_none() ==> r == Err::<(), ConfigurationError>(
                ConfigurationError::StackUnderflow,
            ) && final(self)@ == old(self)@,
    {
        self.stack.pop()
    }

    /// Moves the current frame by `(x, y, z)`.
    pub fn move_sys(&mut self, x: Scalar, y: Scalar, z: Scalar)
        ensures
            final(self)@ == (EngineView {
                stack: composed(old(self)@.stack, translation(x, y, z)),
                ..old(self)@
            }),
    {
        let mm: Modtrix = move_matrix(x, y, z);
        self.stack.apply(&mm);
    }

    /// Rotates the current frame counter-clockwise by `theta` degrees about
    /// the axis numbered `axis`: 0 for x, 1 for y, 2 for z. Fails, and
    /// changes nothing, for any other axis.
    pub fn rotate_sys(&mut self, axis: Scalar, theta: Scalar) -> (r: Result<
        (),
        ConfigurationError,
    >)
        ensures
            rotation(axis, theta) matches Some(m) ==> r.is_ok() && final(self)@ == (EngineView {
                stack: composed(old(self)@.stack, m),
                ..old(self)@
            }),
            rotation(axis, theta).is_none() ==> r == Err::<(), ConfigurationError>(
                ConfigurationError::UnknownAxis,
            ) && final(self)@ == old(self)@,
    {
        let sin: Scalar = sine(theta);
        let cos: Scalar = cosine(theta);
        let rm: Modtrix = if axis.raw == 0 {
            rotx_matrix(sin, cos)
        } else if axis.raw == ONE_RAW {
            roty_matrix(sin, cos)
        } else if axis.raw == 2 * ONE_RAW {
            rotz_matrix(sin, cos)
        } else {
            return Err(ConfigurationError::UnknownAxis);
        };
        self.stack.apply(&rm);
        Ok(())
    }

    /// Scales the current frame by `x`, `y` and `z` along the three axes.
    pub fn scale_sys(&mut self, x: Scalar, y: Scalar, z: Scalar)
        ensures
            final(self)@ == (EngineView {
                stack: composed(old(self)@.stack, dilation(x, y, z)),
                ..old(self)@
            }),
    {
        let sm: Modtrix = scale_matrix(x, y, z);
        self.stack.apply(&sm);
    }

    /// Adds a box to the space, given its front top left corner and its
    /// height, width and depth.
    pub fn add_box(&mut self, corner: (Scalar, Scalar, Scalar), h: Scalar, w: Scalar, d: Scalar)
        ensures
            final(self)@ == (EngineView {
                space: SpaceView {
                    triangles: old(self)@.space.triangles + box_triangles(
                        corner.0,
                        corner.1,
                        corner.2,
                        w,
                        h,
                        d,
                    ),
                    ..old(self)@.space
                },
                ..old(self)@
            }),
    {
        crate::draw::add_box(corner.0, corner.1, corner.2, w, h, d, &mut self.space);
    }

    /// Adds a sphere to the space, given its center and its radius.
    pub fn add_sphere(&mut self, center: (Scalar, Scalar, Scalar), r: Scalar)
        ensures
            final(self)@ == (EngineView {
                space: SpaceView {
                    triangles: old(self)@.space.triangles + sphere_mesh(
                        sphere_points_spec(center.0, center.1, center.2, r),
                        (RESOLUTION * (RESOLUTION - 1)) as nat,
                    ),
                    ..old(self)@.space
                },
                ..old(self)@
            }),
    {
        crate::draw::add_sphere(center.0, center.1, center.2, r, &mut self.space)
    }

    /// Adds a torus to the space, given its center, the radius `r0` of its
    /// tube and the distance `r1` of the tube's center from the axis.
    pub fn add_torus(&mut self, center: (Scalar, Scalar, Scalar), r0: Scalar, r1: Scalar)
        ensures
            final(self)@ == (EngineView {
                space: SpaceView {
                    triangles: old(self)@.space.triangles + torus_mesh(
                        torus_points_spec(center.0, center.1, center.2, r0, r1),
                        (RESOLUTION * RESOLUTION) as nat,
                    ),
                    ..old(self)@.space
                },
                ..old(self)@
            }),
    {
        crate::draw::add_torus(center.0, center.1, center.2, r0, r1, &mut self.space)
    }

    /// Adds the line from `p` to `q` to the space.
    pub fn add_line(&mut self, p: (Scalar, Scalar, Scalar), q: (Scalar, Scalar, Scalar))
        ensures
            final(self)@ == (EngineView {
                space: SpaceView {
                    lines: old(self)@.space.lines.push((homogeneous(p), homogeneous(q))),
                    ..old(self)@.space
                },
                ..old(self)@
            }),
    {
        self.space.add_line(p, q);
    }

    /// Draws the space to the screen, each line in a color chosen at
    /// random.
    pub fn draw_space(&mut self)
        ensures
            exists|colors: Seq<T>|
                colors.len() == old(self)@.space.lines.len() && final(self)@ == (EngineView {
                    screen: draw_space_spec(old(self)@.screen, old(self)@.space, colors),
                    ..old(self)@
                }),
    {
        crate::space::render::draw_space(&self.space, &mut self.screen);
        proof {
            let colors = choose|colors: Seq<T>|
                colors.len() == old(self)@.space.lines.len() && self.screen@ == draw_space_spec(
                    old(self)@.screen,
                    old(self)@.space,
                    colors,
                );
            assert(self@ == (EngineView {
                screen: draw_space_spec(old(self)@.screen, old(self)@.space, colors),
                ..old(self)@
            }));
        }
    }

    /// Draws the space to the screen, every line in `color`.
    pub fn draw_space_with(&mut self, color: T)
        ensures
            final(self)@ == (EngineView {
                screen: draw_space_spec(
                    old(self)@.screen,
                    old(self)@.space,
                    Seq::new(old(self)@.space.lines.len(), |i: int| color),
                ),
                ..old(self)@
            }),
    {
        Space::draw_space(&self.space, color, &mut self.screen);
    }

    /// Drops every line from the space.
    pub fn clear_lines(&mut self)
        ensures
            final(self)@ == (EngineView {
                space: SpaceView { lines: Seq::empty(), ..old(self)@.space },
                ..old(self)@
            }),
    {
        self.space.clear_lines();
    }

    /// Drops every triangle from the space.
    pub fn clear_tris(&mut self)
        ensures
            final(self)@ == (EngineView {
                space: SpaceView { triangles: Seq::empty(), ..old(self)@.space },
                ..old(self)@
            }),
    {
        self.space.clear_tris();
    }

    /// Transforms the space by the current frame.
    pub fn apply_sys(&mut self)
        ensures
            final(self)@ == (EngineView {
                space: old(self)@.space.apply(old(self)@.stack.last()),
                ..old(self)@
            }),
    {
        self.space.apply(self.stack.top());
    }

    /// The screen as a binary portable pixmap.
    pub fn ppm_byte_vec(&self) -> (r: Result<Vec<u8>, EncodingError>)
        ensures
            r.is_ok() <==> all_in_range(self@.screen.cells, self@.screen.cells.len() as int),
            r matches Ok(bytes) ==> bytes@ == encoded(self@.screen),
            r matches Err(EncodingError::ChannelOutOfRange { index }) ==> index
                < self@.screen.cells.len() && !in_range(self@.screen.cells[index as int].color)
                && all_in_range(self@.screen.cells, index as int),
    {
        self.screen.byte_vec()
    }

    /// Adds a point light to the space.
    pub fn add_light(&mut self, light: Light<T>)
        ensures
            final(self)@ == (EngineView {
                space: SpaceView {
                    lights: old(self)@.space.lights.push(light),
                    ..old(self)@.space
                },
                ..old(self)@
            }),
    {
        self.space.add_light(light);
    }

    /// Sets the direction from the scene toward the camera.
    pub fn set_camera(&mut self, p: (Scalar, Scalar, Scalar))
        ensures
            final(self)@ == (EngineView {
                space: SpaceView { camera: p, ..old(self)@.space },
                ..old(self)@
            }),
    {
        self.space.set_camera(p);
    }

    /// Sets the color of the ambient light.
    pub fn set_ambient_light(&mut self, color: T)
        ensures
            final(self)@ == (EngineView {
                space: SpaceView { ambient_light: color, ..old(self)@.space },
                ..old(self)@
            }),
    {
        self.space.set_ambient_light(color);
    }

    /// Varies the knob `name` linearly from `v0` at `start_frame` to `v1`
    /// at `end_frame`. A knob that does not exist yet is created with the
    /// neutral value one at every frame from 0 to `total_frames`.
    ///
    /// Fails, and changes nothing, where the range is empty, reversed or
    /// reaches beyond the end of the knob's track.
    pub fn add_vary(
        &mut self,
        name: String,
        start_frame: u32,
        end_frame: u32,
        v0: Scalar,
        v1: Scalar,
        total_frames: u32,
    ) -> (r: Result<(), ConfigurationError>)
        requires
            total_frames < usize::MAX,
        ensures
            match vary_error(
                old(self)@.knobs,
                name@,
                start_frame as int,
                end_frame as int,
                total_frames as int,
            ) {
                Some(e) => r == Err::<(), ConfigurationError>(e) && final(self)@ == old(self)@,
                None => r.is_ok() && final(self)@ == (EngineView {
                    knobs: with_vary(
                        old(self)@.knobs,
                        name@,
                        start_frame as int,
                        end_frame as int,
                        v0,
                        v1,
                        total_frames as int,
                    ),
                    ..old(self)@
                }),
            },
    {
        self.frames.add_vary(name, start_frame, end_frame, v0, v1, total_frames)
    }

    /// The value of the knob `name` at `frame`.
    ///
    /// Fails where no knob bears that name, or where the frame lies beyond
    /// the end of the knob's track.
    pub fn get_knob_val(&self, name: String, frame: u32) -> (r: Result<Scalar, ConfigurationError>)
        ensures
            match track_of(self@.knobs, name@) {
                None => r == Err::<Scalar, ConfigurationError>(ConfigurationError::UnknownKnob),
                Some(track) => if frame < track.len() {
                    r == Ok::<Scalar, ConfigurationError>(track[frame as int])
                } else {
                    r == Err::<Scalar, ConfigurationError>(ConfigurationError::FrameOutOfRange)
                },
            },
    {
        self.frames.get_knob_val(name, frame)
    }

    /// Clears the screen: every pixel black and infinitely far away.
    pub fn clear_screen(&mut self)
        ensures
            final(self)@ == (EngineView {
                screen: ScreenView::<T>::blank(old(self)@.screen.width, old(self)@.screen.height),
                ..old(self)@
            }),
    {
        self.screen.clear();
    }

    /// Drops every coordinate frame and starts over from the identity.
    pub fn clear_stack(&mut self)
        ensures
            final(self)@ == (EngineView { stack: seq![identity()], ..old(self)@ }),
    {
        self.stack.clear();
    }

    /// Makes the engine ready for the next frame of an animation: no
    /// geometry, a cleared screen and the identity as the only frame. The
    /// lights, the reflection constants and the knobs stay.
    pub fn reset_for_next_frame(&mut self)
        ensures
            final(self)@ == (EngineView {
                stack: seq![identity()],
                space: SpaceView {
                    lines: Seq::empty(),
                    triangles: Seq::empty(),
                    ..old(self)@.space
                },
                screen: ScreenView::<T>::blank(old(self)@.screen.width, old(self)@.screen.height),
                ..old(self)@
            }),
    {
        self.space.clear_tris();
        self.space.clear_lines();
        self.screen.clear();
        self.stack.clear();
    }
}

} // verus!
