//! A software renderer: geometry in object space, a stack of coordinate
//! frames, a depth-buffered rasterizer and flat Phong shading, all in
//! fixed-point arithmetic.
//!
//! - [`scalar`], [`gmath`] and [`trig`] hold the arithmetic: fixed-point
//!   numbers, vectors, and sines and cosines.
//! - [`space`] holds the transforms, the stack of coordinate frames, the
//!   geometry buffers with their lights, and the shading.
//! - [`screen`] holds the pixel grid, the rasterization of lines and
//!   triangles, and the serialization of the image.
//! - [`draw`] builds boxes, spheres, tori and curves.
//! - [`knob`] holds the values that vary over the frames of an animation.
//! - [`engine`] and [`script`] tie these together: an engine is driven
//!   command by command, and a script is a list of commands.
pub mod draw;
pub mod engine;
pub mod error;
pub mod gmath;
pub mod knob;
pub mod scalar;
pub mod screen;
pub mod script;
pub mod space;
pub mod trig;

pub use draw::{add_bezier, add_box, add_circle, add_hermite, add_sphere, add_torus};
pub use engine::Engine;
pub use error::{ConfigurationError, EncodingError};
pub use gmath::{add, dot, norm, normalize, scale, sub};
pub use scalar::Scalar;
pub use screen::{Color, RGB16Color, RGB8Color, Screen};
pub use script::{Command, Knob, Output, Picture, Plan, Script, ScriptError, Target};
pub use space::{Light, Modtrix, Point, Space, TransformStack};
