use amity_art::brush::{Brush, InterpStyle};
use amity_art::color::Rgba;
use amity_art::editor::art::{ArtEditor, Tool};
use amity_art::editor::color::{ColorEditor, Hsv, HEIGHT, PALETTE_CAP, PALETTE_X, SEGMENT_WIDTH};
use amity_art::editor::{Editor, EditorID, Input};
use amity_art::frame::Frame;
use amity_art::image::{Image, ImportError};
use amity_art::palette::Palette;
use amity_art::session::{resolve_focus, Session};

fn red() -> Rgba {
    Rgba::new(255, 0, 0, 255)
}

fn hsv(i: u16) -> Hsv {
    Hsv { hue: i * 100, saturation: 5000, value: 10000 }
}

#[test]
fn palette_evicts_oldest() {
    let mut p: Palette<u32> = Palette::new(16);
    for c in 1..=17u32 {
        p.commit(c);
    }
    assert_eq!(p.len(), 16);
    for i in 0..16usize {
        assert_eq!(p.select(i), Some(i as u32 + 2));
    }
    assert_eq!(p.select(16), None);
}

#[test]
fn color_editor_palette_evicts_oldest() {
    let mut e = ColorEditor::new(hsv(0));
    for i in 1..=17u16 {
        e.set_color(hsv(i));
        e.commit_current_color();
    }
    assert_eq!(e.palette.len(), PALETTE_CAP);
    for i in 0..16usize {
        assert_eq!(e.select(i), Some(hsv(i as u16 + 2)));
    }
}

#[test]
fn palette_click_selects_swatch() {
    let mut e = ColorEditor::new(hsv(0));
    e.set_color(hsv(1));
    e.commit_current_color();
    e.set_color(hsv(2));
    e.commit_current_color();
    e.set_color(hsv(9));
    let mut brush = Brush::new(2, red());
    let mut input = Input::idle(PALETTE_X + SEGMENT_WIDTH + 5, 10);
    input.left_pressed = true;
    assert!(e.update(&input, &mut brush, true));
    assert_eq!(e.color_hsv, hsv(2));
    assert!(!e.is_dirty());
    // A click on the gap after a swatch selects nothing.
    e.set_color(hsv(9));
    let mut gap = Input::idle(PALETTE_X + 25, 10);
    gap.left_pressed = true;
    assert!(!e.update(&gap, &mut brush, true));
    assert_eq!(e.color_hsv, hsv(9));
}

#[test]
fn brush_preview_click_cycles_style() {
    let mut e = ColorEditor::new(hsv(0));
    let mut brush = Brush::new(2, red());
    let mut input = Input::idle(220, 60);
    input.left_pressed = true;
    e.update(&input, &mut brush, true);
    assert_eq!(brush.interp, InterpStyle::Line);
    e.update(&input, &mut brush, false);
    assert_eq!(brush.interp, InterpStyle::Line);
}

#[test]
fn commit_key_pushes_color() {
    let mut e = ColorEditor::new(hsv(3));
    let mut brush = Brush::new(2, red());
    let mut input = Input::idle(600, 100);
    input.commit_key = true;
    e.update(&input, &mut brush, true);
    assert_eq!(e.select(0), Some(hsv(3)));
    assert!(!e.is_focused());
}

fn art_editor() -> ArtEditor {
    ArtEditor::new(Image::new(16, 16, Rgba::blank()))
}

#[test]
fn pen_stroke_paints_and_holds_focus() {
    let mut art = art_editor();
    let mut brush = Brush::new(1, red());
    let first = art.update(&Input::idle(0, 0), &mut brush, true);
    assert!(first.is_some());
    assert!(!art.is_focused());

    let mut press = Input::idle(2, 3);
    press.left_pressed = true;
    press.left_down = true;
    assert!(art.update(&press, &mut brush, true).is_some());
    assert!(art.is_focused());
    assert_eq!(art.canvas.get_color(2, 3), Some(red()));

    let mut drag = Input::idle(6, 3);
    drag.left_down = true;
    assert!(art.update(&drag, &mut brush, true).is_some());
    for x in 2..=6i64 {
        assert_eq!(art.canvas.get_color(x, 3), Some(red()));
    }

    let mut release = Input::idle(6, 3);
    release.left_released = true;
    assert!(art.update(&release, &mut brush, true).is_none());
    assert!(!art.is_focused());
}

#[test]
fn right_button_erases() {
    let mut art = ArtEditor::new(Image::new(8, 8, red()));
    let mut brush = Brush::new(1, red());
    let mut press = Input::idle(4, 4);
    press.right_pressed = true;
    art.update(&press, &mut brush, true);
    assert!(art.is_erasing);
    assert_eq!(art.canvas.get_color(4, 4), Some(Rgba::blank()));
    assert_eq!(art.canvas.get_color(5, 4), Some(red()));
}

#[test]
fn asleep_editor_does_not_paint() {
    let mut art = art_editor();
    let mut brush = Brush::new(1, red());
    let mut press = Input::idle(2, 3);
    press.left_pressed = true;
    art.update(&press, &mut brush, false);
    assert_eq!(art.canvas.get_color(2, 3), Some(Rgba::blank()));
    assert!(!art.is_focused());
}

#[test]
fn fill_tool_fills_region() {
    let mut art = art_editor();
    let mut brush = Brush::new(1, red());
    let mut key = Input::idle(0, 0);
    key.fill_key = true;
    art.update(&key, &mut brush, true);
    assert!(matches!(art.tool, Tool::Fill));
    let mut click = Input::idle(5, 5);
    click.left_pressed = true;
    assert!(art.update(&click, &mut brush, true).is_some());
    assert_eq!(art.canvas.get_color(0, 0), Some(red()));
    assert_eq!(art.canvas.get_color(15, 15), Some(red()));
    let mut back = Input::idle(0, 0);
    back.brush_key = true;
    art.update(&back, &mut brush, true);
    assert!(matches!(art.tool, Tool::Pen { stroke: None }));
}

#[test]
fn size_keys_and_alt_scroll_set_radius() {
    let mut art = art_editor();
    let mut brush = Brush::new(1, red());
    let mut key = Input::idle(0, 0);
    key.size_key = 5;
    art.update(&key, &mut brush, true);
    assert_eq!(brush.radius_halves, 8);
    let mut scroll = Input::idle(0, 0);
    scroll.alt_down = true;
    scroll.scroll = -20;
    art.update(&scroll, &mut brush, true);
    assert_eq!(brush.radius_halves, 1);
}

#[test]
fn ctrl_scroll_zooms_about_pointer() {
    let mut art = art_editor();
    let mut brush = Brush::new(1, red());
    let mut zoom = Input::idle(40, 24);
    zoom.ctrl_down = true;
    zoom.scroll = 2;
    let before = art.view.canvas_pos(40, 24);
    let placement = art.update(&zoom, &mut brush, true).unwrap();
    assert_eq!(art.view.zoom_pow, 2);
    assert_eq!(art.view.canvas_pos(40, 24), before);
    assert_eq!(placement.width, 16 * 64);
}

#[test]
fn oversized_canvas_is_refused() {
    let mut art = art_editor();
    let big = Image::new(0x10_0001, 1, Rgba::blank());
    assert_eq!(art.replace_canvas(big), Err(ImportError::TooLarge));
    assert_eq!(art.canvas.width(), 16);
    assert_eq!(art.replace_canvas(Image::new(4, 4, red())), Ok(()));
    assert_eq!(art.canvas.width(), 4);
}

#[test]
fn frame_resize_and_present() {
    let mut f = Frame::new(800, 600);
    assert!(f.is_dirty());
    f.present();
    assert!(!f.is_dirty());
    assert!(!f.resize(800, 600));
    assert!(!f.is_dirty());
    assert!(f.resize(1024, 600));
    assert!(f.is_dirty());
    f.present();
    f.begin_drawing();
    assert!(f.is_dirty());
}

#[test]
fn focus_follows_pointer_until_held() {
    assert_eq!(resolve_focus(EditorID::Art, false, false, HEIGHT - 1), EditorID::Color);
    assert_eq!(resolve_focus(EditorID::Color, false, false, HEIGHT), EditorID::Art);
    assert_eq!(resolve_focus(EditorID::Art, true, false, 0), EditorID::Art);
}

#[test]
fn focus_is_exclusive_over_frames() {
    let canvas = Image::new(64, 64, Rgba::blank());
    let mut s = Session::new(canvas, Brush::new(2, red()), hsv(0), 800, 600);
    let mut frames = Vec::new();
    frames.push(Input::idle(10, 300));
    let mut press = Input::idle(10, 300);
    press.left_pressed = true;
    press.left_down = true;
    frames.push(press);
    let mut up = Input::idle(10, 50);
    up.left_down = true;
    frames.push(up);
    let mut release = Input::idle(12, 40);
    release.left_released = true;
    frames.push(release);
    frames.push(Input::idle(12, 40));
    let mut middle = Input::idle(12, 300);
    middle.middle_pressed = true;
    frames.push(middle);
    frames.push(Input::idle(12, 20));

    let mut owners = Vec::new();
    for (i, input) in frames.iter().enumerate() {
        s.step(input, false, 800, 600);
        assert!(!(s.art.is_focused() && s.color.is_focused()), "frame {i}");
        owners.push(s.current_editor);
    }
    assert_eq!(owners, vec![
        EditorID::Art,
        EditorID::Art,
        EditorID::Art,
        EditorID::Art,
        EditorID::Color,
        EditorID::Art,
        EditorID::Art,
    ]);
}

#[test]
fn resize_redraws_everything() {
    let canvas = Image::new(8, 8, Rgba::blank());
    let mut s = Session::new(canvas, Brush::new(2, red()), hsv(0), 800, 600);
    s.step(&Input::idle(0, 0), false, 800, 600);
    let quiet = s.step(&Input::idle(0, 0), false, 800, 600);
    assert!(!quiet.present);
    let act = s.step(&Input::idle(0, 0), true, 1024, 768);
    assert!(act.realloc_frame);
    assert!(act.color_redraw);
    assert!(act.art_redraw.is_some());
    assert!(act.present);
}

#[test]
fn wheel_drag_holds_focus() {
    let canvas = Image::new(64, 64, Rgba::blank());
    let mut s = Session::new(canvas, Brush::new(2, red()), hsv(0), 800, 600);
    let mut press = Input::idle(105, 105);
    press.left_pressed = true;
    press.left_down = true;
    s.step(&press, false, 800, 600);
    assert_eq!(s.current_editor, EditorID::Color);
    assert!(s.color.is_focused());
    let mut held = Input::idle(105, 400);
    held.left_down = true;
    let act = s.step(&held, false, 800, 600);
    assert_eq!(s.current_editor, EditorID::Color);
    assert!(act.color_redraw);
    assert!(!s.art.is_focused());
    let mut release = Input::idle(105, 400);
    release.left_released = true;
    s.step(&release, false, 800, 600);
    assert!(!s.color.is_focused());
    s.step(&Input::idle(105, 400), false, 800, 600);
    assert_eq!(s.current_editor, EditorID::Art);
}

#[test]
fn mark_dirty_changes_nothing_else() {
    let mut art = art_editor();
    let mut brush = Brush::new(1, red());
    art.update(&Input::idle(0, 0), &mut brush, true);
    assert!(!art.is_dirty());
    art.mark_dirty();
    assert!(art.is_dirty());
    assert!(!art.is_focused());
    let mut e = ColorEditor::new(hsv(4));
    e.update(&Input::idle(600, 100), &mut brush, true);
    e.mark_dirty();
    assert!(e.is_dirty());
    assert_eq!(e.color_hsv, hsv(4));
}

#[test]
fn failed_resize_is_retried() {
    let mut f = Frame::new(800, 600);
    assert!(f.resize(1024, 768));
    f.resize_failed(800, 600);
    assert_eq!((f.width, f.height), (800, 600));
    assert!(f.resize(1024, 768));
}
