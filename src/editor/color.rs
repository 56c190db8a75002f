use vstd::prelude::*;
use crate::brush::{Brush, next_interp};
use crate::editor::{Editor, Input};
use crate::palette::{Palette, commit_spec};

verus! {

/// A color as hue, saturation and value in fixed point.
#[derive(Debug, Clone, Copy, PartialEq, Eq, Structural)]
pub struct Hsv {
    /// Hue in hundredths of a degree, below 36000.
    pub hue: u16,
    /// Saturation in ten-thousandths, at most 10000.
    pub saturation: u16,
    /// Value in ten-thousandths, at most 10000.
    pub value: u16,
}

pub const PADDING: i32 = 5;

pub const PALETTE_GAP: i32 = 8;

/// Outer radius of the color wheel.
pub const OUTER_RADIUS: i32 = 100;

/// Center of the color wheel, on both axes.
pub const CENTER: i32 = OUTER_RADIUS + PADDING;

/// Height of the strip that the color editor takes at the top of the window.
pub const HEIGHT: i32 = CENTER * 2;

pub const BRUSH_SLOT_WIDTH: i32 = 40;

pub const BRUSH_SLOT_X: i32 = CENTER + OUTER_RADIUS + PADDING;

pub const COLOR_SLOT_WIDTH: i32 = 20;

/// Left edge of the palette row.
pub const PALETTE_X: i32 = BRUSH_SLOT_X + BRUSH_SLOT_WIDTH + PALETTE_GAP;

/// Width of one palette slot with its gap.
pub const SEGMENT_WIDTH: i32 = COLOR_SLOT_WIDTH + PALETTE_GAP;

/// Colors that the palette keeps.
pub const PALETTE_CAP: usize = 16;

/// Top edge of the brush preview.
pub const BRUSH_PREVIEW_Y: i32 = PADDING + BRUSH_SLOT_WIDTH + PALETTE_GAP;

/// (`x`, `y`) lies in the rectangle with corner (`rx`, `ry`), width `rw` and height `rh`.
pub open spec fn in_rect(x: int, y: int, rx: int, ry: int, rw: int, rh: int) -> bool {
    rx <= x < rx + rw && ry <= y < ry + rh
}

/// The pointer is over the color wheel.
pub open spec fn in_wheel(x: int, y: int) -> bool {
    (x - CENTER) * (x - CENTER) + (y - CENTER) * (y - CENTER) <= OUTER_RADIUS * OUTER_RADIUS
}

pub open spec fn in_palette_row(x: int, y: int) -> bool {
    in_rect(x, y, PALETTE_X as int, PADDING as int, SEGMENT_WIDTH * PALETTE_CAP, COLOR_SLOT_WIDTH as int)
}

pub open spec fn in_brush_preview(x: int, y: int) -> bool {
    in_rect(
        x,
        y,
        BRUSH_SLOT_X as int,
        BRUSH_PREVIEW_Y as int,
        BRUSH_SLOT_WIDTH as int,
        BRUSH_SLOT_WIDTH as int,
    )
}

/// Palette slot under column `x` of the palette row.
pub open spec fn palette_slot(x: int) -> int {
    (x - PALETTE_X) / (SEGMENT_WIDTH as int)
}

/// Column `x` of the palette row is on a swatch, not in the gap after it.
pub open spec fn on_swatch(x: int) -> bool {
    (x - PALETTE_X) % (SEGMENT_WIDTH as int) <= COLOR_SLOT_WIDTH
}

/// The color wheel, the brush preview and the palette row.
pub struct ColorEditor {
    pub color_hsv: Hsv,
    pub is_colorwheel_dirty: bool,
    /// A left-button drag that began on the wheel is in progress.
    pub is_dragging_wheel: bool,
    pub palette: Palette<Hsv>,
}

/// Whether a wheel drag is in progress after this frame: it begins with a left press on
/// the wheel and ends when the left button is up.
pub open spec fn wheel_drag_after(was: bool, input: Input) -> bool {
    if !input.left_down || input.left_released {
        false
    } else if input.left_pressed && in_wheel(input.mouse_x as int, input.mouse_y as int) {
        true
    } else {
        was
    }
}

/// What one frame of `ColorEditor::update` does: the editor goes from `old` to `new`,
/// the brush from `b0` to `b1`, and the result is `redraw`.
pub open spec fn color_update_post(
    old: ColorEditor,
    new: ColorEditor,
    b0: Brush,
    b1: Brush,
    input: Input,
    is_awake: bool,
    redraw: bool,
) -> bool {
    let x = input.mouse_x as int;
    let y = input.mouse_y as int;
    let clicked = is_awake && input.left_pressed;
    let chosen = if clicked {
        old.clicked_slot(x, y)
    } else {
        None
    };
    let color = match chosen {
        Some(i) => old.palette.view_colors()[i],
        None => old.color_hsv,
    };
    let drag = if is_awake {
        wheel_drag_after(old.is_dragging_wheel, input)
    } else {
        old.is_dragging_wheel
    };
    &&& new.color_hsv == color
    &&& new.palette.view_colors() == if is_awake && input.commit_key {
        commit_spec(old.palette.view_colors(), PALETTE_CAP as nat, color)
    } else {
        old.palette.view_colors()
    }
    &&& new.is_dragging_wheel == drag
    &&& b1.interp == if clicked && !in_palette_row(x, y) && in_brush_preview(x, y) {
        next_interp(b0.interp)
    } else {
        b0.interp
    }
    &&& b1.radius_halves == b0.radius_halves
    &&& b1.color == b0.color
    &&& redraw == (old.is_colorwheel_dirty || (is_awake && input.left_down && (in_wheel(x, y)
        || drag)) || chosen is Some)
    &&& !new.is_colorwheel_dirty
}

impl ColorEditor {
    pub open spec fn wf(&self) -> bool {
        self.palette.wf() && self.palette.capacity_spec() == PALETTE_CAP
    }

    /// The palette slot chosen by a click at (`x`, `y`), if a filled swatch is there.
    pub open spec fn clicked_slot(&self, x: int, y: int) -> Option<int> {
        if in_palette_row(x, y) && palette_slot(x) < self.palette.view_colors().len() && on_swatch(x) {
            Some(palette_slot(x))
        } else {
            None
        }
    }

    /// An editor showing `color`, with an empty palette, to be drawn.
    pub fn new(color: Hsv) -> (e: ColorEditor)
        ensures
            e.wf(),
            e.color_hsv == color,
            e.is_colorwheel_dirty,
            !e.is_dragging_wheel,
            e.palette.view_colors() == Seq::<Hsv>::empty(),
    {
        ColorEditor {
            color_hsv: color,
            is_colorwheel_dirty: true,
            is_dragging_wheel: false,
            palette: Palette::new(PALETTE_CAP),
        }
    }

    /// Takes the color that the wheel was left at.
    pub fn set_color(&mut self, color: Hsv)
        ensures
            final(self).color_hsv == color,
            final(self).is_colorwheel_dirty == old(self).is_colorwheel_dirty,
            final(self).is_dragging_wheel == old(self).is_dragging_wheel,
            final(self).palette == old(self).palette,
    {
        self.color_hsv = color;
    }

    /// Pushes the current color to the palette, evicting the oldest when it is full.
    pub fn commit_current_color(&mut self)
        requires
            old(self).wf(),
        ensures
            final(self).wf(),
            final(self).color_hsv == old(self).color_hsv,
            final(self).is_colorwheel_dirty == old(self).is_colorwheel_dirty,
            final(self).is_dragging_wheel == old(self).is_dragging_wheel,
            final(self).palette.view_colors() == commit_spec(
                old(self).palette.view_colors(),
                PALETTE_CAP as nat,
                old(self).color_hsv,
            ),
    {
        self.palette.commit(self.color_hsv);
    }

    /// The color in palette slot `index`, if that slot is filled.
    pub fn select(&self, index: usize) -> (c: Option<Hsv>)
        ensures
            c == if index < self.palette.view_colors().len() {
                Some(self.palette.view_colors()[index as int])
            } else {
                None
            },
    {
        self.palette.select(index)
    }

    /// One frame of the color editor. When awake: a left press on the wheel starts a drag
    /// that holds focus until the left button is up, and holding the left button over the
    /// wheel or during that drag queues a redraw; a left click on a filled swatch takes its color, and one on the
    /// brush preview moves the brush to its next joining style; the commit key pushes the
    /// current color to the palette. Returns whether the editor must be redrawn now, and
    /// leaves no redraw queued.
    pub fn update(&mut self, input: &Input, brush: &mut Brush, is_awake: bool) -> (redraw: bool)
        requires
            old(self).wf(),
        ensures
            final(self).wf(),
            color_update_post(*old(self), *final(self), *old(brush), *final(brush), *input, is_awake, redraw),
    {
        if is_awake {
            let x = input.mouse_x;
            let y = input.mouse_y;
            let mut on_wheel = false;
            {
                let dx = x as i128 - CENTER as i128;
                let dy = y as i128 - CENTER as i128;
                proof {
                    assert(0 <= dx * dx <= 0x1_0000_0000 * 0x1_0000_0000) by (nonlinear_arith)
                        requires
                            -0x1_0000_0000 <= dx <= 0x1_0000_0000,
                    ;
                    assert(0 <= dy * dy <= 0x1_0000_0000 * 0x1_0000_0000) by (nonlinear_arith)
                        requires
                            -0x1_0000_0000 <= dy <= 0x1_0000_0000,
                    ;
                }
                on_wheel = dx * dx + dy * dy <= OUTER_RADIUS as i128 * OUTER_RADIUS as i128;
            }
            if !input.left_down || input.left_released {
                self.is_dragging_wheel = false;
            } else if input.left_pressed && on_wheel {
                self.is_dragging_wheel = true;
            }
            if input.left_down && (on_wheel || self.is_dragging_wheel) {
                self.is_colorwheel_dirty = true;
            }
            if input.left_pressed {
                let in_row = PALETTE_X <= x && (x as i64) < PALETTE_X as i64 + SEGMENT_WIDTH as i64
                    * PALETTE_CAP as i64 && PADDING <= y && y < PADDING + COLOR_SLOT_WIDTH;
                if in_row {
                    let rel = x - PALETTE_X;
                    let i = rel / SEGMENT_WIDTH;
                    let p = rel % SEGMENT_WIDTH;
                    if p <= COLOR_SLOT_WIDTH {
                        match self.palette.select(i as usize) {
                            Some(c) => {
                                self.color_hsv = c;
                                self.is_colorwheel_dirty = true;
                            },
                            None => {},
                        }
                    }
                } else if BRUSH_SLOT_X <= x && x < BRUSH_SLOT_X + BRUSH_SLOT_WIDTH && BRUSH_PREVIEW_Y
                    <= y && y < BRUSH_PREVIEW_Y + BRUSH_SLOT_WIDTH {
                    brush.cycle_interp();
                }
            }
            if input.commit_key {
                self.palette.commit(self.color_hsv);
            }
        }
        let redraw = self.is_colorwheel_dirty;
        self.is_colorwheel_dirty = false;
        redraw
    }
}

impl Editor for ColorEditor {
    open spec fn dirty_spec(&self) -> bool {
        self.is_colorwheel_dirty
    }

    /// A drag that began on the wheel keeps the focus.
    open spec fn focused_spec(&self) -> bool {
        self.is_dragging_wheel
    }

    open spec fn marked_dirty(&self) -> ColorEditor {
        ColorEditor { is_colorwheel_dirty: true, ..*self }
    }

    fn mark_dirty(&mut self) {
        self.is_colorwheel_dirty = true;
    }

    fn is_dirty(&self) -> (d: bool) {
        self.is_colorwheel_dirty
    }

    fn is_focused(&self) -> (f: bool) {
        self.is_dragging_wheel
    }
}

} // verus!
