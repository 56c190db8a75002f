use amity_art::transform::{Placement, ViewTransform};

#[test]
fn identity_view_maps_pixels() {
    let v = ViewTransform::new();
    assert_eq!(v.canvas_pos(13, 7), (13, 7));
}

#[test]
fn pan_offsets_canvas() {
    let mut v = ViewTransform::new();
    v.set_pan(0, 210);
    assert_eq!(v.canvas_pos(5, 215), (5, 5));
}

#[test]
fn canvas_pos_floors() {
    let v = ViewTransform { zoom_pow: 0, pan_x: 8, pan_y: 0 };
    // 0 - 0.5 floors to -1.
    assert_eq!(v.canvas_pos(0, 0), (-1, 0));
    let z = ViewTransform { zoom_pow: 1, pan_x: 0, pan_y: 0 };
    assert_eq!(z.canvas_pos(5, 4), (2, 2));
}

#[test]
fn zoom_keeps_pointer_anchor() {
    let mut v = ViewTransform::new();
    v.set_pan(3, -7);
    let before = v.canvas_pos(100, 60);
    v.zoom_at(100, 60, 1);
    assert_eq!(v.zoom_pow, 1);
    assert_eq!(v.canvas_pos(100, 60), before);
    v.zoom_at(100, 60, -3);
    assert_eq!(v.zoom_pow, -2);
    assert_eq!(v.canvas_pos(100, 60), before);
}

#[test]
fn zoom_is_clamped() {
    let mut v = ViewTransform::new();
    v.zoom_at(0, 0, 10);
    assert_eq!(v.zoom_pow, 4);
    v.zoom_at(0, 0, -100);
    assert_eq!(v.zoom_pow, -4);
}

#[test]
fn placement_scales_with_zoom() {
    let mut v = ViewTransform::new();
    v.set_pan(0, 210);
    v.zoom_pow = 1;
    assert_eq!(v.placement(720, 480), Placement { x: 0, y: 210 * 32, width: 720 * 32, height: 480 * 32 });
}

#[test]
fn placement_rounds_pan() {
    let v = ViewTransform { zoom_pow: 0, pan_x: -24, pan_y: 24 };
    // -1.5 rounds to -2 and 1.5 to 2, away from zero.
    let p = v.placement(10, 10);
    assert_eq!((p.x, p.y), (-32, 32));
}

#[test]
fn drag_and_scroll_pan() {
    let mut v = ViewTransform::new();
    v.drag(3, -2);
    assert_eq!(v.canvas_pos(0, 0), (-3, 2));
    v.scroll_pan(1, true);
    assert_eq!((v.pan_x, v.pan_y), ((3 + 20) * 16, -2 * 16));
    v.scroll_pan(-2, false);
    assert_eq!(v.pan_y, (-2 - 40) * 16);
}

#[test]
fn pen_position_matches_drawn_canvas() {
    // Pan of 7/16 pixel rounds to 0, so the canvas is drawn at x = 0 and the pointer at
    // x = 0 is over column 0.
    let v = ViewTransform { zoom_pow: 0, pan_x: 7, pan_y: 0 };
    assert_eq!(v.placement(10, 10).x, 0);
    assert_eq!(v.canvas_pos(0, 0), (0, 0));
    let w = ViewTransform { zoom_pow: 0, pan_x: 9, pan_y: 0 };
    assert_eq!(w.placement(10, 10).x, 16);
    assert_eq!(w.canvas_pos(0, 0), (-1, 0));
}
