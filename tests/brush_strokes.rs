use amity_art::brush::{Brush, InterpStyle, Mark};
use amity_art::color::Rgba;
use amity_art::image::Image;

fn blank() -> Rgba {
    Rgba::blank()
}

fn red() -> Rgba {
    Rgba::new(255, 0, 0, 255)
}

fn painted_count(img: &Image) -> usize {
    let mut n = 0;
    for y in 0..img.height() as i64 {
        for x in 0..img.width() as i64 {
            if img.get_color(x, y) != Some(blank()) {
                n += 1;
            }
        }
    }
    n
}

#[test]
fn curve_stroke_is_continuous() {
    let mut img = Image::new(32, 8, blank());
    let brush = Brush::new(4, red());
    assert_eq!(brush.interp, InterpStyle::Curve);
    brush.paint(&mut img, &vec![(0, 0), (10, 0), (20, 0)], false);
    for x in 0..=20i64 {
        assert_ne!(img.get_color(x, 0), Some(blank()), "gap at x = {x}");
    }
}

#[test]
fn stroke_marks_per_style() {
    let pts = vec![(0, 0), (10, 0), (20, 4)];
    let mut brush = Brush::new(4, red());
    let curve = brush.stroke_marks(&pts);
    assert_eq!(curve, vec![
        Mark::Disc { x: 0, y: 0 },
        Mark::Line { x0: 0, y0: 0, x1: 10, y1: 0 },
        Mark::Curve { x0: 0, y0: 0, cx2: 20, cy2: -4, x1: 20, y1: 4 },
    ]);
    brush.interp = InterpStyle::Line;
    assert_eq!(brush.stroke_marks(&pts)[2], Mark::Line { x0: 10, y0: 0, x1: 20, y1: 4 });
    brush.interp = InterpStyle::Space;
    assert_eq!(brush.stroke_marks(&pts), vec![
        Mark::Disc { x: 0, y: 0 },
        Mark::Disc { x: 10, y: 0 },
        Mark::Disc { x: 20, y: 4 },
    ]);
}

#[test]
fn small_radius_stamps_one_pixel() {
    let mut img = Image::new(8, 8, blank());
    let brush = Brush::new(1, red());
    brush.paint(&mut img, &vec![(3, 4)], false);
    assert_eq!(img.get_color(3, 4), Some(red()));
    assert_eq!(painted_count(&img), 1);
}

#[test]
fn disc_stamp_covers_radius() {
    let mut img = Image::new(12, 12, blank());
    let brush = Brush::new(4, red());
    brush.paint(&mut img, &vec![(5, 5)], false);
    assert_eq!(img.get_color(7, 5), Some(red()));
    assert_eq!(img.get_color(5, 3), Some(red()));
    assert_eq!(img.get_color(6, 6), Some(red()));
    assert_eq!(img.get_color(7, 6), Some(blank()));
    assert_eq!(img.get_color(8, 5), Some(blank()));
    // Every (dx, dy) with dx^2 + dy^2 <= 4: 13 pixels.
    assert_eq!(painted_count(&img), 13);
}

#[test]
fn spaced_stroke_leaves_gaps() {
    let mut img = Image::new(32, 4, blank());
    let mut brush = Brush::new(1, red());
    brush.interp = InterpStyle::Space;
    brush.paint(&mut img, &vec![(0, 0), (10, 0), (20, 0)], false);
    assert_eq!(painted_count(&img), 3);
    assert_eq!(img.get_color(5, 0), Some(blank()));
}

#[test]
fn line_stroke_joins_points() {
    let mut img = Image::new(32, 4, blank());
    let mut brush = Brush::new(1, red());
    brush.interp = InterpStyle::Line;
    brush.paint(&mut img, &vec![(0, 1), (12, 1)], false);
    for x in 0..=12i64 {
        assert_eq!(img.get_color(x, 1), Some(red()));
    }
    assert_eq!(painted_count(&img), 13);
}

#[test]
fn erasing_clears_to_transparent() {
    let mut img = Image::new(8, 8, red());
    let brush = Brush::new(1, Rgba::blank());
    brush.paint(&mut img, &vec![(2, 2)], true);
    assert_eq!(img.get_color(2, 2), Some(blank()));
    assert_eq!(img.get_color(3, 2), Some(red()));
}

#[test]
fn points_off_canvas_are_clipped() {
    let mut img = Image::new(4, 4, blank());
    let brush = Brush::new(4, red());
    brush.paint(&mut img, &vec![(-100, -100)], false);
    assert_eq!(painted_count(&img), 0);
}

#[test]
fn radius_is_clamped_on_change() {
    let mut brush = Brush::new(0, red());
    assert_eq!(brush.radius_halves, 0);
    assert!(brush.set_radius(0));
    assert_eq!(brush.radius_halves, 1);
    assert!(!brush.set_radius(0));
    assert!(brush.set_radius(6));
    assert_eq!(brush.radius_halves, 6);
}

#[test]
fn interp_cycles() {
    let mut brush = Brush::new(2, red());
    brush.cycle_interp();
    assert_eq!(brush.interp, InterpStyle::Line);
    brush.cycle_interp();
    assert_eq!(brush.interp, InterpStyle::Space);
    brush.cycle_interp();
    assert_eq!(brush.interp, InterpStyle::Curve);
}
