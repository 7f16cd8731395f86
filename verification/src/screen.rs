//! The raster image: a grid of colors with a depth for each pixel.
pub mod color;
pub mod depth;
pub mod line;
pub mod ppm;
pub mod raster;
pub mod triangle;

pub use color::{Color, RGB16Color, RGB8Color};
pub use raster::Screen;
