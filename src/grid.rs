//! A grid of one-pixel lines drawn over an image.

use vstd::prelude::*;
use crate::canvas::{Canvas, pixels_of, extent_of, width_of, height_of};
use crate::pixel::Rgba8;

verus! {

/// Whether `(x, y)` lies on a grid line. Each cell, of `cell_width` by
/// `cell_height` pixels from the top-left corner on, has its top and left
/// edges drawn; a far edge is drawn only where the next cell begins.
pub open spec fn on_grid(cell_width: int, cell_height: int, x: int, y: int) -> bool {
    x % cell_width == 0 || y % cell_height == 0
}

/// A copy of `src` with a grid of `color` lines drawn over it: the top row
/// and left column of every cell take `color`, every other pixel keeps its
/// value in `src`.
pub fn draw_grid(src: &Canvas, cell_width: u32, cell_height: u32, color: Rgba8) -> (r: Canvas)
    requires
        cell_width > 0,
        cell_height > 0,
    ensures
        extent_of(r) == extent_of(*src),
        forall|x: int, y: int|
            0 <= x < width_of(r) && 0 <= y < height_of(r) ==> #[trigger] pixels_of(r)[(x, y)]
                == if on_grid(cell_width as int, cell_height as int, x, y) {
                color
            } else {
                pixels_of(*src)[(x, y)]
            },
{
    let mut out = src.duplicate();
    let (w, h) = out.extent();
    let mut y: u32 = 0;
    while y < h
        invariant
            y <= h,
            cell_width > 0,
            cell_height > 0,
            extent_of(out) == extent_of(*src),
            extent_of(out) == (w, h),
            forall|xx: int, yy: int|
                0 <= xx < w && 0 <= yy < h ==> #[trigger] pixels_of(out)[(xx, yy)]
                    == if yy < y && on_grid(cell_width as int, cell_height as int, xx, yy) {
                    color
                } else {
                    pixels_of(*src)[(xx, yy)]
                },
        decreases h - y,
    {
        let on_row = y % cell_height == 0;
        let mut x: u32 = 0;
        while x < w
            invariant
                x <= w,
                y < h,
                cell_width > 0,
                cell_height > 0,
                on_row == (y % cell_height == 0),
                extent_of(out) == extent_of(*src),
                extent_of(out) == (w, h),
                forall|xx: int, yy: int|
                    0 <= xx < w && 0 <= yy < h ==> #[trigger] pixels_of(out)[(xx, yy)]
                        == if (yy < y || (yy == y && xx < x)) && on_grid(
                        cell_width as int,
                        cell_height as int,
                        xx,
                        yy,
                    ) {
                        color
                    } else {
                        pixels_of(*src)[(xx, yy)]
                    },
            decreases w - x,
        {
            if on_row || x % cell_width == 0 {
                out.write(x, y, color);
            }
            x = x + 1;
        }
        y = y + 1;
    }
    out
}

} // verus!
