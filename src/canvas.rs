//! The canvas: an RGBA pixel buffer of the `image` crate, as the rest of the
//! library sees it, a width, a height and a pixel at each coordinate inside.

use vstd::prelude::*;
use crate::error::CompositeError;
use crate::pixel::{Rgba8, transparent};

verus! {

/// A rectangular RGBA buffer, stored row by row in an `image::RgbaImage`.
#[verifier::external_body]
pub struct Canvas {
    buf: image::RgbaImage,
}

/// What a canvas holds: the pixel at each coordinate `(x, y)` inside it.
pub uninterp spec fn pixels_of(c: Canvas) -> Map<(int, int), Rgba8>;

/// The width and height a canvas was made with.
pub uninterp spec fn extent_of(c: Canvas) -> (u32, u32);

/// The canvas width as an integer.
pub open spec fn width_of(c: Canvas) -> int {
    extent_of(c).0 as int
}

/// The canvas height as an integer.
pub open spec fn height_of(c: Canvas) -> int {
    extent_of(c).1 as int
}

/// The pixel of `c` at `(x, y)`; meaningful for coordinates inside `c`.
pub open spec fn pixel_at(c: Canvas, x: int, y: int) -> Rgba8 {
    pixels_of(c)[(x, y)]
}

/// Whether `(x, y)` names a pixel of `c`.
pub open spec fn in_bounds(c: Canvas, x: int, y: int) -> bool {
    0 <= x < width_of(c) && 0 <= y < height_of(c)
}

/// Whether a `width` by `height` RGBA buffer can be allocated: four bytes a
/// pixel, at most `isize::MAX` bytes in all.
pub open spec fn fits_in_memory(width: int, height: int) -> bool {
    width * height * 4 <= isize::MAX
}

impl Canvas {
    /// Relies on `ImageBuffer::new`: a `width` by `height` buffer with every
    /// byte zero. It panics when the byte count overflows or exceeds
    /// `isize::MAX`.
    #[verifier::external_body]
    pub(crate) fn blank(width: u32, height: u32) -> (r: Canvas)
        requires
            fits_in_memory(width as int, height as int),
        ensures
            extent_of(r) == (width, height),
            forall|x: int, y: int|
                0 <= x < width && 0 <= y < height ==> #[trigger] pixels_of(r)[(x, y)]
                    == transparent(),
    {
        Canvas { buf: image::RgbaImage::new(width, height) }
    }

    /// Relies on `ImageBuffer::dimensions`: the width and height of the buffer.
    #[verifier::external_body]
    pub(crate) fn extent(&self) -> (r: (u32, u32))
        ensures
            r == extent_of(*self),
    {
        self.buf.dimensions()
    }

    /// Relies on `ImageBuffer::get_pixel`: the pixel at `(x, y)`. It panics
    /// out of bounds.
    #[verifier::external_body]
    pub(crate) fn read(&self, x: u32, y: u32) -> (r: Rgba8)
        requires
            in_bounds(*self, x as int, y as int),
        ensures
            r == pixel_at(*self, x as int, y as int),
    {
        let p = self.buf.get_pixel(x, y).0;
        Rgba8 { red: p[0], green: p[1], blue: p[2], alpha: p[3] }
    }

    /// Relies on `ImageBuffer::put_pixel`: replaces the pixel at `(x, y)` and
    /// nothing else. It panics out of bounds.
    #[verifier::external_body]
    pub(crate) fn write(&mut self, x: u32, y: u32, p: Rgba8)
        requires
            in_bounds(*old(self), x as int, y as int),
        ensures
            extent_of(*final(self)) == extent_of(*old(self)),
            pixels_of(*final(self)) == pixels_of(*old(self)).insert((x as int, y as int), p),
    {
        self.buf.put_pixel(x, y, image::Rgba([p.red, p.green, p.blue, p.alpha]));
    }

    /// Relies on `ImageBuffer::clone`: a buffer of the same size holding the
    /// same pixels.
    #[verifier::external_body]
    pub(crate) fn duplicate(&self) -> (r: Canvas)
        ensures
            extent_of(r) == extent_of(*self),
            pixels_of(r) == pixels_of(*self),
    {
        Canvas { buf: self.buf.clone() }
    }

    /// A `width` by `height` canvas of transparent black pixels, or
    /// `TooLarge` when such a buffer cannot be allocated.
    pub fn new(width: u32, height: u32) -> (r: Result<Canvas, CompositeError>)
        ensures
            r is Err <==> !fits_in_memory(width as int, height as int),
            r is Err ==> r == Err::<Canvas, CompositeError>(CompositeError::TooLarge),
            r matches Ok(c) ==> {
                &&& extent_of(c) == (width, height)
                &&& forall|x: int, y: int|
                    0 <= x < width && 0 <= y < height ==> #[trigger] pixel_at(c, x, y)
                        == transparent()
            },
    {
        if fits_u64(width, height) {
            Ok(Canvas::blank(width, height))
        } else {
            Err(CompositeError::TooLarge)
        }
    }
    /// The canvas's width in pixels.
    pub fn width(&self) -> (r: u32)
        ensures
            r == width_of(*self),
    {
        self.extent().0
    }

    /// The canvas's height in pixels.
    pub fn height(&self) -> (r: u32)
        ensures
            r == height_of(*self),
    {
        self.extent().1
    }

    /// The pixel at `(x, y)`, or `None` when the coordinate lies outside.
    pub fn get_pixel(&self, x: u32, y: u32) -> (r: Option<Rgba8>)
        ensures
            r is Some <==> in_bounds(*self, x as int, y as int),
            r matches Some(p) ==> p == pixels_of(*self)[(x as int, y as int)],
    {
        let (w, h) = self.extent();
        if x < w && y < h {
            Some(self.read(x, y))
        } else {
            None
        }
    }

    /// Sets the pixel at `(x, y)` to `p` and leaves every other pixel as it
    /// was; a coordinate outside the canvas is refused with `Geometry` and
    /// changes nothing.
    pub fn put_pixel(&mut self, x: u32, y: u32, p: Rgba8) -> (r: Result<(), CompositeError>)
        ensures
            extent_of(*final(self)) == extent_of(*old(self)),
            r is Ok <==> in_bounds(*old(self), x as int, y as int),
            r is Ok ==> pixels_of(*final(self)) == pixels_of(*old(self)).insert(
                (x as int, y as int),
                p,
            ),
            r is Err ==> pixels_of(*final(self)) == pixels_of(*old(self)) && r == Err::<
                (),
                CompositeError,
            >(CompositeError::Geometry),
    {
        let (w, h) = self.extent();
        if x < w && y < h {
            self.write(x, y, p);
            Ok(())
        } else {
            Err(CompositeError::Geometry)
        }
    }
}

/// Decides `fits_in_memory` in machine arithmetic.
pub(crate) fn fits_u64(width: u32, height: u32) -> (r: bool)
    ensures
        r == fits_in_memory(width as int, height as int),
{
    let w: u64 = width as u64;
    let h: u64 = height as u64;
    assert(w * h <= 0xffff_fffe_0000_0001) by (nonlinear_arith)
        requires
            w <= 0xffff_ffff,
            h <= 0xffff_ffff,
    ;
    let area: u64 = w * h;
    let limit: u64 = (isize::MAX as u64) / 4;
    area <= limit
}

} // verus!
