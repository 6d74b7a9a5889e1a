//! Places a source image onto display-sized canvases.

pub mod blit;
pub mod buffer;
pub mod error;
pub mod pixels;
pub mod raster;
pub mod rect;
pub mod rootmap;
pub mod tiling;
pub mod ximage;

pub use crate::error::Error;
pub use crate::ximage::ImageMode;
