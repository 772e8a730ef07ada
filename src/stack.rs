//! Two images stacked one above the other on a single canvas.

use vstd::prelude::*;
use crate::canvas::{Canvas, pixels_of, extent_of, width_of, height_of, fits_in_memory, fits_u64};
use crate::error::CompositeError;
use crate::filmstrip::max_int;
use crate::pixel::{Rgba8, transparent};

verus! {

/// The stacked canvas's pixel at `(x, y)`: `top` above, `bottom` below it,
/// both flush left, and transparent black right of the narrower one.
pub open spec fn stacked_pixel(top: Canvas, bottom: Canvas, x: int, y: int) -> Rgba8 {
    if y < height_of(top) {
        if x < width_of(top) {
            pixels_of(top)[(x, y)]
        } else {
            transparent()
        }
    } else {
        if x < width_of(bottom) {
            pixels_of(bottom)[(x, y - height_of(top))]
        } else {
            transparent()
        }
    }
}

/// Whether the stacked canvas is too large for a buffer.
pub open spec fn stack_too_large(top: Canvas, bottom: Canvas) -> bool {
    let h = height_of(top) + height_of(bottom);
    h > u32::MAX || !fits_in_memory(max_int(width_of(top), width_of(bottom)), h)
}

/// Copies `src` onto `canvas` with its top-left corner at `(0, row)`, leaving
/// every other pixel as it was.
fn copy_at_row(canvas: &mut Canvas, src: &Canvas, row: u32)
    requires
        width_of(*src) <= width_of(*old(canvas)),
        row + height_of(*src) <= height_of(*old(canvas)),
    ensures
        extent_of(*final(canvas)) == extent_of(*old(canvas)),
        forall|x: int, y: int|
            0 <= x < width_of(*final(canvas)) && 0 <= y < height_of(*final(canvas))
                ==> #[trigger] pixels_of(*final(canvas))[(x, y)] == if x < width_of(*src) && row
                <= y < row + height_of(*src) {
                pixels_of(*src)[(x, y - row)]
            } else {
                pixels_of(*old(canvas))[(x, y)]
            },
{
    let ghost start = *canvas;
    let (cw, ch) = canvas.extent();
    let (sw, sh) = src.extent();
    let mut y: u32 = 0;
    while y < sh
        invariant
            y <= sh,
            extent_of(*canvas) == extent_of(start),
            extent_of(start) == (cw, ch),
            extent_of(*src) == (sw, sh),
            sw <= cw,
            row + sh <= ch,
            forall|xx: int, yy: int|
                0 <= xx < cw && 0 <= yy < ch ==> #[trigger] pixels_of(*canvas)[(xx, yy)]
                    == if xx < sw && row <= yy < row + y {
                    pixels_of(*src)[(xx, yy - row)]
                } else {
                    pixels_of(start)[(xx, yy)]
                },
        decreases sh - y,
    {
        let mut x: u32 = 0;
        while x < sw
            invariant
                x <= sw,
                y < sh,
                extent_of(*canvas) == extent_of(start),
                extent_of(start) == (cw, ch),
                extent_of(*src) == (sw, sh),
                sw <= cw,
                row + sh <= ch,
                forall|xx: int, yy: int|
                    0 <= xx < cw && 0 <= yy < ch ==> #[trigger] pixels_of(*canvas)[(xx, yy)]
                        == if (xx < sw && row <= yy < row + y) || (xx < x && yy == row + y) {
                        pixels_of(*src)[(xx, yy - row)]
                    } else {
                        pixels_of(start)[(xx, yy)]
                    },
            decreases sw - x,
        {
            let p = src.read(x, y);
            canvas.write(x, row + y, p);
            x = x + 1;
        }
        y = y + 1;
    }
}

/// Stacks `top` above `bottom`: the canvas is as wide as the wider input and
/// as tall as both together; `top` is copied to `(0, 0)`, `bottom` to
/// `(0, top.height)`, and columns right of the narrower input stay
/// transparent black. Refused with `TooLarge` only when such a canvas cannot
/// be held in a buffer.
pub fn stack_vertical(top: &Canvas, bottom: &Canvas) -> (r: Result<Canvas, CompositeError>)
    ensures
        match r {
            Ok(c) => {
                &&& !stack_too_large(*top, *bottom)
                &&& width_of(c) == max_int(width_of(*top), width_of(*bottom))
                &&& height_of(c) == height_of(*top) + height_of(*bottom)
                &&& forall|x: int, y: int|
                    0 <= x < width_of(c) && 0 <= y < height_of(c) ==> #[trigger] pixels_of(c)[(x, y)]
                        == stacked_pixel(*top, *bottom, x, y)
            },
            Err(e) => stack_too_large(*top, *bottom) && e == CompositeError::TooLarge,
        },
{
    let (tw, th) = top.extent();
    let (bw, bh) = bottom.extent();
    if th as u64 + bh as u64 > u32::MAX as u64 {
        return Err(CompositeError::TooLarge);
    }
    let w: u32 = if tw < bw {
        bw
    } else {
        tw
    };
    let h: u32 = th + bh;
    if !fits_u64(w, h) {
        return Err(CompositeError::TooLarge);
    }
    let mut canvas = Canvas::blank(w, h);
    copy_at_row(&mut canvas, top, 0);
    copy_at_row(&mut canvas, bottom, th);
    Ok(canvas)
}

} // verus!
