//! Pixel compositing for sprite sheets: a filmstrip built from a tiled base
//! image with alpha-gated frames laid over it, a grid of one-pixel lines drawn
//! over an image, and two images stacked one above the other.
//!
//! Every operation reads `image::RgbaImage` buffers and returns a freshly
//! allocated one; decoding and encoding files is left to the caller.

pub mod error;
pub mod filmstrip;
pub mod grid;
pub mod pixel;
pub mod stack;
pub mod canvas;

pub use canvas::Canvas;
pub use error::CompositeError;
pub use filmstrip::assemble;
pub use grid::draw_grid;
pub use pixel::Rgba8;
pub use stack::stack_vertical;
