//! The filmstrip: a base image repeated once per frame, side by side and
//! wrapped vertically to the canvas height, with the frames of an overlay
//! strip laid over it wherever the overlay has content.

use vstd::prelude::*;
use crate::canvas::{Canvas, pixels_of, extent_of, width_of, height_of, fits_in_memory, fits_u64};
use crate::error::CompositeError;
use crate::pixel::Rgba8;

verus! {

/// How far a frame is shifted right inside its tile to be centred on it; no
/// shift when the frame is wider than the tile.
pub open spec fn frame_offset(base_width: int, frame_width: int) -> int {
    if base_width < frame_width {
        0
    } else {
        (base_width - frame_width) / 2
    }
}

/// The pixel that tiling alone puts at `(x, y)`: the base image repeated
/// horizontally and vertically.
pub open spec fn tiled_pixel(base: Canvas, x: int, y: int) -> Rgba8 {
    pixels_of(base)[(x % width_of(base), y % height_of(base))]
}

/// The column inside its frame that canvas column `x` falls on; inside the
/// frame when it lies in `[0, frame_width)`.
pub open spec fn frame_column(base_width: int, frame_width: int, x: int) -> int {
    x % base_width - frame_offset(base_width, frame_width)
}

/// Whether canvas pixel `(x, y)` lies under a frame.
pub open spec fn in_frame(base_width: int, frame_width: int, frame_height: int, x: int, y: int) -> bool {
    0 <= frame_column(base_width, frame_width, x) < frame_width && y < frame_height
}

/// The overlay column read for canvas column `x`: the same column of the
/// frame whose index is the tile's index.
pub open spec fn overlay_column(base_width: int, frame_width: int, x: int) -> int {
    (x / base_width) * frame_width + frame_column(base_width, frame_width, x)
}

/// The filmstrip's pixel at `(x, y)`: the overlay pixel where a frame covers
/// it with content (non-zero alpha), else the tiled base pixel.
pub open spec fn strip_pixel(
    base: Canvas,
    overlay: Canvas,
    frame_width: int,
    frame_height: int,
    x: int,
    y: int,
) -> Rgba8 {
    let bw = width_of(base);
    let src = pixels_of(overlay)[(overlay_column(bw, frame_width, x), y)];
    if in_frame(bw, frame_width, frame_height, x, y) && src.alpha != 0 {
        src
    } else {
        tiled_pixel(base, x, y)
    }
}

/// Where pixel `(u, y)` of frame `i` lands on canvas `c`, and what it leaves
/// there: the tiled base pixel when its alpha is zero, else the frame pixel
/// itself, unblended.
pub open spec fn frame_pixel_placed(
    c: Canvas,
    base: Canvas,
    overlay: Canvas,
    frame_width: int,
    i: int,
    u: int,
    y: int,
) -> bool {
    let bw = width_of(base);
    let src = pixels_of(overlay)[(i * frame_width + u, y)];
    let x = i * bw + frame_offset(bw, frame_width) + u;
    pixels_of(c)[(x, y)] == if src.alpha == 0 {
        tiled_pixel(base, x, y)
    } else {
        src
    }
}

/// Tiling wraps vertically: below the base's last row the base starts over, so
/// row `y + base.height` of the tiling repeats row `y`; in particular row
/// `base.height` repeats row 0.
pub proof fn lemma_tiling_wraps(base: Canvas, x: int, y: int)
    requires
        height_of(base) > 0,
        0 <= x < width_of(base),
        0 <= y,
    ensures
        tiled_pixel(base, x, y + height_of(base)) == tiled_pixel(base, x, y),
{
    vstd::arithmetic::div_mod::lemma_mod_add_multiples_vanish(y, height_of(base));
}

/// Pixel `(u, y)` of frame `i`, centred on tile `i`, sits in column `u` of the
/// frame and inside the canvas.
proof fn lemma_frame_column(base_width: int, frame_width: int, frame_count: int, i: int, u: int)
    requires
        0 < frame_width <= base_width,
        0 <= i < frame_count,
        0 <= u < frame_width,
    ensures
        ({
            let x = i * base_width + frame_offset(base_width, frame_width) + u;
            &&& x / base_width == i
            &&& frame_column(base_width, frame_width, x) == u
            &&& overlay_column(base_width, frame_width, x) == i * frame_width + u
            &&& 0 <= x < base_width * frame_count
        }),
{
    let dx = frame_offset(base_width, frame_width);
    let x = i * base_width + dx + u;
    assert(0 <= dx + u < base_width);
    vstd::arithmetic::div_mod::lemma_fundamental_div_mod_converse(x, base_width, i, dx + u);
    assert(0 <= x < base_width * frame_count) by (nonlinear_arith)
        requires
            x == i * base_width + dx + u,
            0 <= dx + u < base_width,
            0 <= i < frame_count,
    ;
}

/// Whether the frame geometry reaches outside a buffer: a frame taller than
/// the overlay, or, when frames are asked for, one wider than a tile or a
/// base with no rows to tile a non-empty canvas with.
pub open spec fn frames_misfit(
    base_width: int,
    base_height: int,
    overlay_height: int,
    frame_width: int,
    frame_height: int,
    frame_count: int,
) -> bool {
    frame_height > overlay_height || (frame_count > 0 && (frame_width > base_width || (
    base_height == 0 && overlay_height > 0)))
}

/// The larger of two integers.
pub open spec fn max_int(a: int, b: int) -> int {
    if a < b {
        b
    } else {
        a
    }
}

/// Why `assemble` refuses its inputs, checked in this order, or `None` when
/// it accepts them.
pub open spec fn assemble_error(
    base_width: int,
    base_height: int,
    overlay_width: int,
    overlay_height: int,
    frame_width: int,
    frame_height: int,
    frame_count: int,
) -> Option<CompositeError> {
    if frame_width == 0 {
        Some(CompositeError::Geometry)
    } else if frame_count > overlay_width / frame_width {
        Some(CompositeError::Capacity)
    } else if frames_misfit(
        base_width,
        base_height,
        overlay_height,
        frame_width,
        frame_height,
        frame_count,
    ) {
        Some(CompositeError::Geometry)
    } else if base_width * frame_count > u32::MAX || !fits_in_memory(
        base_width * frame_count,
        max_int(base_height, overlay_height),
    ) {
        Some(CompositeError::TooLarge)
    } else {
        None
    }
}

/// Fills `canvas` with `base` repeated across it and down it.
fn tile(canvas: &mut Canvas, base: &Canvas)
    requires
        (width_of(*old(canvas)) > 0 && height_of(*old(canvas)) > 0) ==> (width_of(*base) > 0
            && height_of(*base) > 0),
    ensures
        extent_of(*final(canvas)) == extent_of(*old(canvas)),
        forall|x: int, y: int|
            0 <= x < width_of(*final(canvas)) && 0 <= y < height_of(*final(canvas))
                ==> #[trigger] pixels_of(*final(canvas))[(x, y)] == tiled_pixel(*base, x, y),
{
    let (cw, ch) = canvas.extent();
    let (bw, bh) = base.extent();
    let ghost start = extent_of(*canvas);
    let mut y: u32 = 0;
    while y < ch
        invariant
            y <= ch,
            extent_of(*canvas) == start,
            start == (cw, ch),
            extent_of(*base) == (bw, bh),
            (cw > 0 && ch > 0) ==> (bw > 0 && bh > 0),
            forall|x: int, yy: int|
                0 <= x < cw && 0 <= yy < y ==> #[trigger] pixels_of(*canvas)[(x, yy)]
                    == tiled_pixel(*base, x, yy),
        decreases ch - y,
    {
        let mut x: u32 = 0;
        while x < cw
            invariant
                x <= cw,
                y < ch,
                extent_of(*canvas) == start,
                start == (cw, ch),
                extent_of(*base) == (bw, bh),
                (cw > 0 && ch > 0) ==> (bw > 0 && bh > 0),
                forall|xx: int, yy: int|
                    0 <= xx < cw && 0 <= yy < y ==> #[trigger] pixels_of(*canvas)[(xx, yy)]
                        == tiled_pixel(*base, xx, yy),
                forall|xx: int| 0 <= xx < x ==> #[trigger] pixels_of(*canvas)[(xx, y as int)]
                    == tiled_pixel(*base, xx, y as int),
            decreases cw - x,
        {
            let p = base.read(x % bw, y % bh);
            canvas.write(x, y, p);
            x = x + 1;
        }
        y = y + 1;
    }
}

/// The pixel at `(x, y)` of `before` once the frames of `overlay` are laid
/// over it: the frame pixel where one with content covers it, else as before.
spec fn laid_pixel(
    before: Canvas,
    overlay: Canvas,
    base_width: int,
    frame_width: int,
    frame_height: int,
    x: int,
    y: int,
) -> Rgba8 {
    let src = pixels_of(overlay)[(overlay_column(base_width, frame_width, x), y)];
    if in_frame(base_width, frame_width, frame_height, x, y) && src.alpha != 0 {
        src
    } else {
        pixels_of(before)[(x, y)]
    }
}

/// Lays the frames of `overlay` over `canvas`, one per tile of width
/// `base_width`: a frame pixel with content replaces the canvas pixel under it
/// and one without content leaves it as it was.
fn lay_frames(
    canvas: &mut Canvas,
    overlay: &Canvas,
    base_width: u32,
    frame_width: u32,
    frame_height: u32,
    frame_count: u32,
)
    requires
        width_of(*old(canvas)) == base_width * frame_count,
        frame_height <= height_of(*old(canvas)),
        frame_height <= height_of(*overlay),
        frame_width * frame_count <= width_of(*overlay),
    ensures
        extent_of(*final(canvas)) == extent_of(*old(canvas)),
        forall|x: int, y: int|
            0 <= x < width_of(*final(canvas)) && 0 <= y < height_of(*final(canvas))
                ==> #[trigger] pixels_of(*final(canvas))[(x, y)] == laid_pixel(
                *old(canvas),
                *overlay,
                base_width as int,
                frame_width as int,
                frame_height as int,
                x,
                y,
            ),
{
    let (cw, ch) = canvas.extent();
    let ghost start = *canvas;
    let ghost (bw, fw, fh) = (base_width as int, frame_width as int, frame_height as int);
    let dx: u32 = if base_width < frame_width {
        0
    } else {
        (base_width - frame_width) / 2
    };
    let mut y: u32 = 0;
    while y < ch
        invariant
            y <= ch,
            extent_of(*canvas) == extent_of(start),
            extent_of(start) == (cw, ch),
            cw == base_width * frame_count,
            frame_height <= height_of(*overlay),
            frame_width * frame_count <= width_of(*overlay),
            dx == frame_offset(bw, fw),
            (bw, fw, fh) == (base_width as int, frame_width as int, frame_height as int),
            forall|xx: int, yy: int|
                0 <= xx < cw && 0 <= yy < ch ==> #[trigger] pixels_of(*canvas)[(xx, yy)]
                    == if yy < y {
                    laid_pixel(start, *overlay, bw, fw, fh, xx, yy)
                } else {
                    pixels_of(start)[(xx, yy)]
                },
        decreases ch - y,
    {
        let mut x: u32 = 0;
        while x < cw
            invariant
                x <= cw,
                y < ch,
                extent_of(*canvas) == extent_of(start),
                extent_of(start) == (cw, ch),
                cw == base_width * frame_count,
                frame_height <= height_of(*overlay),
                frame_width * frame_count <= width_of(*overlay),
                dx == frame_offset(bw, fw),
                (bw, fw, fh) == (base_width as int, frame_width as int, frame_height as int),
                forall|xx: int, yy: int|
                    0 <= xx < cw && 0 <= yy < ch ==> #[trigger] pixels_of(*canvas)[(xx, yy)]
                        == if yy < y || (yy == y && xx < x) {
                        laid_pixel(start, *overlay, bw, fw, fh, xx, yy)
                    } else {
                        pixels_of(start)[(xx, yy)]
                    },
            decreases cw - x,
        {
            if y < frame_height {
                assert(base_width > 0) by (nonlinear_arith)
                    requires
                        x < cw,
                        cw == base_width * frame_count,
                ;
                let u: u32 = x % base_width;
                if dx <= u && u - dx < frame_width {
                    let t: u32 = x / base_width;
                    assert(t < frame_count && t * frame_width + (u - dx) < frame_width * frame_count)
                        by (nonlinear_arith)
                        requires
                            x < cw,
                            cw == base_width * frame_count,
                            base_width > 0,
                            t == x / base_width,
                            u - dx < frame_width,
                    ;
                    let src = overlay.read(t * frame_width + (u - dx), y);
                    if src.is_opaque() {
                        canvas.write(x, y, src);
                    }
                }
            }
            x = x + 1;
        }
        y = y + 1;
    }
}

/// Builds the filmstrip of `frame_count` frames, each `frame_width` by
/// `frame_height`, taken from left to right out of `overlay` and laid over
/// tiles of `base`.
///
/// The canvas is `base.width * frame_count` wide and as tall as the taller of
/// the two inputs. It is first filled with `base` repeated across it and down
/// it; then tile `i` receives frame `i`, centred horizontally on the tile and
/// placed at its top. A frame pixel whose alpha is zero leaves the tile pixel
/// under it untouched; any other frame pixel replaces it outright.
///
/// Refused, before any pixel is written: a zero frame width (`Geometry`); more
/// frames than `overlay.width / frame_width` (`Capacity`); a frame taller than
/// the overlay, or, when frames are asked for, wider than the base or laid on
/// a base with no rows (`Geometry`); a canvas too large for a buffer
/// (`TooLarge`).
pub fn assemble(
    base: &Canvas,
    overlay: &Canvas,
    frame_width: u32,
    frame_height: u32,
    frame_count: u32,
) -> (r: Result<Canvas, CompositeError>)
    ensures
        frame_width > 0 ==> (r == Err::<Canvas, CompositeError>(CompositeError::Capacity)
            <==> frame_count > width_of(*overlay) / frame_width as int),
        match r {
            Ok(c) => {
                &&& assemble_error(
                    width_of(*base),
                    height_of(*base),
                    width_of(*overlay),
                    height_of(*overlay),
                    frame_width as int,
                    frame_height as int,
                    frame_count as int,
                ) is None
                &&& width_of(c) == width_of(*base) * frame_count
                &&& height_of(c) == max_int(height_of(*base), height_of(*overlay))
                &&& forall|x: int, y: int|
                    0 <= x < width_of(c) && 0 <= y < height_of(c) ==> #[trigger] pixels_of(c)[(x, y)]
                        == strip_pixel(*base, *overlay, frame_width as int, frame_height as int, x, y)
                &&& forall|i: int, u: int, y: int|
                    0 <= i < frame_count && 0 <= u < frame_width && 0 <= y < frame_height
                        ==> #[trigger] frame_pixel_placed(c, *base, *overlay, frame_width as int, i, u, y)
            },
            Err(e) => assemble_error(
                width_of(*base),
                height_of(*base),
                width_of(*overlay),
                height_of(*overlay),
                frame_width as int,
                frame_height as int,
                frame_count as int,
            ) == Some(e),
        },
{
    let (bw, bh) = base.extent();
    let (ow, oh) = overlay.extent();
    if frame_width == 0 {
        return Err(CompositeError::Geometry);
    }
    if frame_count > ow / frame_width {
        return Err(CompositeError::Capacity);
    }
    if frame_height > oh || (frame_count > 0 && (frame_width > bw || (bh == 0 && oh > 0))) {
        return Err(CompositeError::Geometry);
    }
    assert(bw as u64 * frame_count as u64 <= 0xffff_fffe_0000_0001) by (nonlinear_arith)
        requires
            bw <= 0xffff_ffff,
            frame_count <= 0xffff_ffff,
    ;
    let wide: u64 = bw as u64 * frame_count as u64;
    if wide > u32::MAX as u64 {
        return Err(CompositeError::TooLarge);
    }
    let cw: u32 = wide as u32;
    let ch: u32 = if bh < oh {
        oh
    } else {
        bh
    };
    if !fits_u64(cw, ch) {
        return Err(CompositeError::TooLarge);
    }
    assert(frame_width * frame_count <= ow) by (nonlinear_arith)
        requires
            frame_width > 0,
            frame_count <= ow / frame_width,
    ;
    assert(cw > 0 ==> frame_count > 0) by (nonlinear_arith)
        requires
            cw == bw * frame_count,
    ;
    let mut canvas = Canvas::blank(cw, ch);
    tile(&mut canvas, base);
    lay_frames(&mut canvas, overlay, bw, frame_width, frame_height, frame_count);
    assert forall|i: int, u: int, y: int|
        0 <= i < frame_count && 0 <= u < frame_width && 0 <= y < frame_height
            implies #[trigger] frame_pixel_placed(canvas, *base, *overlay, frame_width as int, i, u, y) by {
        lemma_frame_column(bw as int, frame_width as int, frame_count as int, i, u);
        let x = i * bw + frame_offset(bw as int, frame_width as int) + u;
        assert(pixels_of(canvas)[(x, y)] == strip_pixel(*base, *overlay, frame_width as int, frame_height as int, x, y));
    }
    Ok(canvas)
}

} // verus!
