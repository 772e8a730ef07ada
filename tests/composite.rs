use filmstrip::{assemble, draw_grid, stack_vertical, Canvas, CompositeError, Rgba8};

const RED: Rgba8 = Rgba8 { red: 255, green: 0, blue: 0, alpha: 255 };
const BLUE: Rgba8 = Rgba8 { red: 0, green: 0, blue: 255, alpha: 255 };
const GREEN: Rgba8 = Rgba8 { red: 0, green: 255, blue: 0, alpha: 255 };
const CLEAR: Rgba8 = Rgba8 { red: 0, green: 0, blue: 0, alpha: 0 };

fn filled(width: u32, height: u32, f: impl Fn(u32, u32) -> Rgba8) -> Canvas {
    let mut c = Canvas::new(width, height).unwrap_or_else(|_| panic!("canvas too large"));
    for y in 0..height {
        for x in 0..width {
            assert_eq!(c.put_pixel(x, y, f(x, y)), Ok(()));
        }
    }
    c
}

fn at(c: &Canvas, x: u32, y: u32) -> Rgba8 {
    c.get_pixel(x, y).unwrap()
}

fn distinct(x: u32, y: u32) -> Rgba8 {
    Rgba8::new(x as u8, y as u8, 7, 255)
}

fn ok(r: Result<Canvas, CompositeError>) -> Canvas {
    match r {
        Ok(c) => c,
        Err(e) => panic!("unexpected error {:?}", e),
    }
}

#[test]
fn filmstrip_red_base_blue_second_frame() {
    let base = filled(2, 2, |_, _| RED);
    let overlay = filled(4, 2, |x, _| if x < 2 { CLEAR } else { BLUE });
    let c = ok(assemble(&base, &overlay, 2, 2, 2));
    assert_eq!((c.width(), c.height()), (4, 2));
    for y in 0..2 {
        assert_eq!(at(&c, 0, y), RED);
        assert_eq!(at(&c, 1, y), RED);
        assert_eq!(at(&c, 2, y), BLUE);
        assert_eq!(at(&c, 3, y), BLUE);
    }
}

#[test]
fn filmstrip_too_many_frames_is_capacity_error() {
    let base = filled(2, 2, |_, _| RED);
    let overlay = filled(4, 2, |_, _| BLUE);
    assert!(matches!(assemble(&base, &overlay, 2, 2, 3), Err(CompositeError::Capacity)));
}

#[test]
fn filmstrip_exactly_all_frames_succeeds() {
    let base = filled(2, 2, |_, _| RED);
    let overlay = filled(5, 2, |_, _| BLUE);
    // 5 / 2 == 2 frames fit.
    let c = ok(assemble(&base, &overlay, 2, 2, 2));
    assert_eq!((c.width(), c.height()), (4, 2));
    assert!(matches!(assemble(&base, &overlay, 2, 2, 3), Err(CompositeError::Capacity)));
}

#[test]
fn filmstrip_size_is_tiles_by_taller_input() {
    let base = filled(3, 2, distinct);
    let overlay = filled(4, 5, |_, _| CLEAR);
    let c = ok(assemble(&base, &overlay, 2, 1, 2));
    assert_eq!((c.width(), c.height()), (6, 5));
    let c = ok(assemble(&filled(3, 7, distinct), &overlay, 2, 1, 1));
    assert_eq!((c.width(), c.height()), (3, 7));
}

#[test]
fn filmstrip_tiles_wrap_vertically() {
    let base = filled(3, 2, distinct);
    let overlay = filled(2, 5, |_, _| CLEAR);
    let c = ok(assemble(&base, &overlay, 1, 1, 2));
    for x in 0..6 {
        for y in 0..5 {
            assert_eq!(at(&c, x, y), distinct(x % 3, y % 2));
        }
        assert_eq!(at(&c, x, 2), at(&c, x, 0));
    }
}

#[test]
fn filmstrip_frames_are_centred_and_alpha_gated() {
    // Base tiles of width 5; frames of width 3 are shifted right by 1.
    let base = filled(5, 2, |_, _| RED);
    let overlay = filled(6, 2, |x, y| {
        if (x + y) % 2 == 0 {
            Rgba8::new(x as u8, 0, 9, 1)
        } else {
            Rgba8::new(1, 2, 3, 0)
        }
    });
    let c = ok(assemble(&base, &overlay, 3, 2, 2));
    assert_eq!((c.width(), c.height()), (10, 2));
    for i in 0..2u32 {
        for y in 0..2u32 {
            assert_eq!(at(&c, i * 5, y), RED);
            assert_eq!(at(&c, i * 5 + 4, y), RED);
            for u in 0..3u32 {
                let src = at(&overlay, i * 3 + u, y);
                let dst = at(&c, i * 5 + 1 + u, y);
                if src.alpha == 0 {
                    assert_eq!(dst, RED);
                } else {
                    assert_eq!(dst, src);
                }
            }
        }
    }
}

#[test]
fn filmstrip_frame_covers_only_its_height() {
    let base = filled(2, 3, |_, _| RED);
    let overlay = filled(2, 3, |_, _| GREEN);
    let c = ok(assemble(&base, &overlay, 2, 2, 1));
    assert_eq!(at(&c, 0, 1), GREEN);
    assert_eq!(at(&c, 1, 1), GREEN);
    assert_eq!(at(&c, 0, 2), RED);
    assert_eq!(at(&c, 1, 2), RED);
}

#[test]
fn filmstrip_zero_frames_is_empty() {
    let base = filled(2, 2, |_, _| RED);
    let overlay = filled(4, 3, |_, _| BLUE);
    let c = ok(assemble(&base, &overlay, 2, 2, 0));
    assert_eq!((c.width(), c.height()), (0, 3));
}

#[test]
fn filmstrip_geometry_errors() {
    let base = filled(2, 2, |_, _| RED);
    let overlay = filled(4, 2, |_, _| BLUE);
    assert!(matches!(assemble(&base, &overlay, 0, 2, 1), Err(CompositeError::Geometry)));
    assert!(matches!(assemble(&base, &overlay, 2, 3, 1), Err(CompositeError::Geometry)));
    assert!(matches!(assemble(&base, &overlay, 3, 2, 1), Err(CompositeError::Geometry)));
    let flat = filled(2, 0, |_, _| RED);
    assert!(matches!(assemble(&flat, &overlay, 2, 2, 1), Err(CompositeError::Geometry)));
}

#[test]
fn filmstrip_too_wide_canvas_is_refused() {
    let base = filled(65536, 1, |_, _| RED);
    let overlay = filled(65537, 1, |_, _| BLUE);
    assert!(matches!(assemble(&base, &overlay, 1, 1, 65537), Err(CompositeError::TooLarge)));
}

#[test]
fn grid_marks_cell_edges_only() {
    let src = filled(5, 4, distinct);
    let c = draw_grid(&src, 2, 3, GREEN);
    assert_eq!((c.width(), c.height()), (5, 4));
    for y in 0..4 {
        for x in 0..5 {
            let expected = if x % 2 == 0 || y % 3 == 0 { GREEN } else { distinct(x, y) };
            assert_eq!(at(&c, x, y), expected, "at ({}, {})", x, y);
        }
    }
    // The source is left as it was.
    assert_eq!(at(&src, 0, 0), distinct(0, 0));
}

#[test]
fn grid_with_cells_larger_than_image() {
    let src = filled(3, 2, distinct);
    let c = draw_grid(&src, 10, 10, BLUE);
    for y in 0..2 {
        for x in 0..3 {
            let expected = if x == 0 || y == 0 { BLUE } else { distinct(x, y) };
            assert_eq!(at(&c, x, y), expected);
        }
    }
}

#[test]
fn grid_with_unit_cells_covers_everything() {
    let c = draw_grid(&filled(3, 3, distinct), 1, 1, RED);
    for y in 0..3 {
        for x in 0..3 {
            assert_eq!(at(&c, x, y), RED);
        }
    }
}

#[test]
fn stack_places_top_above_bottom_and_pads() {
    let top = filled(2, 2, |x, y| Rgba8::new(x as u8, y as u8, 1, 255));
    let bottom = filled(3, 1, |x, y| Rgba8::new(x as u8, y as u8, 2, 255));
    let c = ok(stack_vertical(&top, &bottom));
    assert_eq!((c.width(), c.height()), (3, 3));
    for y in 0..2 {
        for x in 0..2 {
            assert_eq!(at(&c, x, y), at(&top, x, y));
        }
        assert_eq!(at(&c, 2, y), CLEAR);
    }
    for x in 0..3 {
        assert_eq!(at(&c, x, 2), at(&bottom, x, 0));
    }
}

#[test]
fn stack_pads_a_narrower_bottom() {
    let top = filled(3, 1, |_, _| RED);
    let bottom = filled(1, 2, |_, _| BLUE);
    let c = ok(stack_vertical(&top, &bottom));
    assert_eq!((c.width(), c.height()), (3, 3));
    assert_eq!(at(&c, 0, 1), BLUE);
    assert_eq!(at(&c, 0, 2), BLUE);
    assert_eq!(at(&c, 1, 1), CLEAR);
    assert_eq!(at(&c, 2, 2), CLEAR);
}

#[test]
fn stack_of_empty_images() {
    let top = filled(0, 0, |_, _| RED);
    let bottom = filled(2, 0, |_, _| RED);
    let c = ok(stack_vertical(&top, &bottom));
    assert_eq!((c.width(), c.height()), (2, 0));
}

#[test]
fn canvas_starts_transparent_and_keeps_writes() {
    let mut c = Canvas::new(3, 2).unwrap_or_else(|_| panic!("canvas too large"));
    assert_eq!((c.width(), c.height()), (3, 2));
    assert_eq!(at(&c, 2, 1), CLEAR);
    assert_eq!(c.put_pixel(2, 1, BLUE), Ok(()));
    assert_eq!(at(&c, 2, 1), BLUE);
    assert_eq!(at(&c, 1, 1), CLEAR);
    assert_eq!(c.get_pixel(3, 0), None);
    assert_eq!(c.get_pixel(0, 2), None);
    assert_eq!(c.put_pixel(0, 2, BLUE), Err(CompositeError::Geometry));
}

#[test]
fn canvas_too_large_is_refused() {
    assert!(matches!(Canvas::new(u32::MAX, u32::MAX), Err(CompositeError::TooLarge)));
}

#[test]
fn pixel_opacity() {
    assert!(RED.is_opaque());
    assert!(Rgba8::new(0, 0, 0, 1).is_opaque());
    assert!(!CLEAR.is_opaque());
}
