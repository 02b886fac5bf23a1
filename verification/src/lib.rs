//! Pixel-level image operations on four-channel, eight-bit colour buffers:
//! a chroma-key compositor and a box-kernel convolution with its helpers.

pub mod aggregate;
pub mod buffer;
pub mod chroma;
pub mod color;
pub mod convolve;
pub mod coords;
pub mod grid;
pub mod kernel;
pub mod parse;
pub mod sharpen;

pub use crate::aggregate::mean;
pub use crate::buffer::{copy_img, PixelBuffer};
pub use crate::chroma::{chroma_key, composite_pixel};
pub use crate::color::{pixel_comp, Color};
pub use crate::convolve::{blur, sample_pixel};
pub use crate::coords::wrap_u32;
pub use crate::kernel::Kernel;
pub use crate::parse::{rgba_from_bytes, rgba_from_str, ParseRgbaError};
pub use crate::sharpen::sharpen_pixel;
