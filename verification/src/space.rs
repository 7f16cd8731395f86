//! Shapes in space: points, transforms, lights and the geometry buffers.
use crate::scalar::Scalar;
use vstd::prelude::*;

pub mod compose;
pub mod geometry;
pub mod light;
pub mod modtrix;
pub mod render;
pub mod shading;
pub mod stack;

pub use geometry::Space;
pub use light::Light;
pub use render::draw_space;
pub use stack::TransformStack;
pub use modtrix::{move_matrix, rotx_matrix, roty_matrix, rotz_matrix, scale_matrix, Modtrix};

verus! {

/// A point, stored `(x, y, z)`.
pub type Point = (Scalar, Scalar, Scalar);

} // verus!
