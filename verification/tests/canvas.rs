use vimp_canvas::color::{Color, Rgb8};
use vimp_canvas::pixmap::{render_canvas, Pixmap};
use vimp_canvas::scene::{canvas_size, paint_ops, DrawOp, Rect};

fn gray() -> Rgb8 {
    Rgb8 { r: 51, g: 51, b: 51 }
}

fn rose() -> Rgb8 {
    Rgb8 { r: 229, g: 102, b: 102 }
}

#[test]
fn window_content_area_is_800_by_600() {
    let (w, h) = canvas_size();
    assert_eq!(w, 800);
    assert_eq!(h, 600);
}

#[test]
fn paint_pass_issues_exactly_two_ops() {
    let ops = paint_ops();
    assert_eq!(ops.len(), 2);
    assert!(matches!(ops[0], DrawOp::PaintAll(_)));
    assert!(matches!(ops[1], DrawOp::FillRect(_, _)));
}

#[test]
fn background_paint_uses_dark_gray() {
    let ops = paint_ops();
    match ops[0] {
        DrawOp::PaintAll(c) => {
            assert_eq!(c, Color { r: 200, g: 200, b: 200 });
            assert_eq!(c.to_rgb8(), gray());
        }
        _ => panic!("first command must paint the whole surface"),
    }
}

#[test]
fn rectangle_fill_uses_fixed_geometry_and_color() {
    let ops = paint_ops();
    match ops[1] {
        DrawOp::FillRect(r, c) => {
            assert_eq!(r, Rect { x: 100, y: 100, w: 200, h: 150 });
            assert_eq!(c, Color { r: 900, g: 400, b: 400 });
            assert_eq!(c.to_rgb8(), rose());
        }
        _ => panic!("second command must fill the rectangle"),
    }
}

#[test]
fn paint_pass_is_the_same_list_every_time() {
    assert_eq!(paint_ops(), paint_ops());
}

#[test]
fn channel_scaling_matches_8_bit_values() {
    assert_eq!(Color::new(0, 0, 0).to_rgb8(), Rgb8 { r: 0, g: 0, b: 0 });
    assert_eq!(Color::new(1000, 1000, 1000).to_rgb8(), Rgb8 { r: 255, g: 255, b: 255 });
    assert_eq!(Color::new(200, 900, 400).to_rgb8(), Rgb8 { r: 51, g: 229, b: 102 });
    assert_eq!(Color::new(1, 999, 500).to_rgb8(), Rgb8 { r: 0, g: 254, b: 127 });
}

#[test]
fn rendered_canvas_shows_gray_outside_and_rose_inside_the_rectangle() {
    let p = render_canvas();
    assert_eq!(p.width(), 800);
    assert_eq!(p.height(), 600);
    for y in 0..600usize {
        for x in 0..800usize {
            let inside = 100 <= x && x < 300 && 100 <= y && y < 250;
            let want = if inside { rose() } else { gray() };
            assert_eq!(p.pixel(x, y), want, "pixel at ({}, {})", x, y);
        }
    }
}

#[test]
fn rendered_canvas_corners_and_rectangle_edges() {
    let p = render_canvas();
    assert_eq!(p.pixel(0, 0), gray());
    assert_eq!(p.pixel(799, 599), gray());
    assert_eq!(p.pixel(99, 100), gray());
    assert_eq!(p.pixel(100, 99), gray());
    assert_eq!(p.pixel(100, 100), rose());
    assert_eq!(p.pixel(299, 249), rose());
    assert_eq!(p.pixel(300, 249), gray());
    assert_eq!(p.pixel(299, 250), gray());
}

#[test]
fn two_consecutive_paint_passes_are_pixel_identical() {
    let first = render_canvas();
    let second = render_canvas();
    for y in 0..600usize {
        for x in 0..800usize {
            assert_eq!(first.pixel(x, y), second.pixel(x, y));
        }
    }
}

#[test]
fn paint_pass_overwrites_whatever_the_surface_held() {
    let white = Rgb8 { r: 255, g: 255, b: 255 };
    let mut stale = Pixmap::new(800, 600, white);
    let ops = paint_ops();
    stale.apply_all(&ops);
    let fresh = render_canvas();
    for y in 0..600usize {
        for x in 0..800usize {
            assert_eq!(stale.pixel(x, y), fresh.pixel(x, y));
        }
    }
}

#[test]
fn repainting_a_painted_surface_changes_nothing() {
    let mut p = render_canvas();
    let ops = paint_ops();
    p.apply_all(&ops);
    let once = render_canvas();
    for y in 0..600usize {
        for x in 0..800usize {
            assert_eq!(p.pixel(x, y), once.pixel(x, y));
        }
    }
}

#[test]
fn paint_all_covers_every_pixel_of_a_small_buffer() {
    let black = Rgb8 { r: 0, g: 0, b: 0 };
    let red = Color::new(1000, 0, 0);
    let mut p = Pixmap::new(3, 2, black);
    p.apply(DrawOp::PaintAll(red));
    for y in 0..2usize {
        for x in 0..3usize {
            assert_eq!(p.pixel(x, y), Rgb8 { r: 255, g: 0, b: 0 });
        }
    }
}

#[test]
fn fill_rect_is_clipped_to_the_buffer() {
    let black = Rgb8 { r: 0, g: 0, b: 0 };
    let red = Color::new(1000, 0, 0);
    let mut p = Pixmap::new(4, 4, black);
    p.apply(DrawOp::FillRect(Rect { x: 2, y: 2, w: 5, h: 5 }, red));
    for y in 0..4usize {
        for x in 0..4usize {
            let inside = x >= 2 && y >= 2;
            let want = if inside { Rgb8 { r: 255, g: 0, b: 0 } } else { black };
            assert_eq!(p.pixel(x, y), want);
        }
    }
}

#[test]
fn empty_rectangle_fills_nothing() {
    let black = Rgb8 { r: 0, g: 0, b: 0 };
    let red = Color::new(1000, 0, 0);
    let mut p = Pixmap::new(4, 4, black);
    p.apply(DrawOp::FillRect(Rect { x: 1, y: 1, w: 0, h: 3 }, red));
    for y in 0..4usize {
        for x in 0..4usize {
            assert_eq!(p.pixel(x, y), black);
        }
    }
}

#[test]
fn rect_contains_matches_its_bounds() {
    let r = Rect { x: 100, y: 100, w: 200, h: 150 };
    assert!(r.contains(100, 100));
    assert!(r.contains(299, 249));
    assert!(!r.contains(99, 100));
    assert!(!r.contains(100, 99));
    assert!(!r.contains(300, 100));
    assert!(!r.contains(100, 250));
}

#[test]
fn zero_sized_pixmap_is_allowed() {
    let black = Rgb8 { r: 0, g: 0, b: 0 };
    let mut p = Pixmap::new(0, 0, black);
    assert_eq!(p.width(), 0);
    assert_eq!(p.height(), 0);
    let ops = paint_ops();
    p.apply_all(&ops);
    assert_eq!(p.width(), 0);
    assert_eq!(p.height(), 0);
}
