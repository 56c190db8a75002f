use vstd::prelude::*;
use crate::brush::{Brush, clamp_radius, points_in_limit, stroke_marks_spec, apply_marks};
use crate::color::Rgba;
use crate::editor::{Editor, Input};
use crate::flood_fill::{connected, flood_fill};
use crate::geometry::{COORD_LIMIT, in_limit};
use crate::image::{Image, ImportError};
use crate::transform::{
    ViewTransform,
    Placement,
    placement_spec,
    zoomed,
    clamp,
    clamp_pan,
    SCROLL_PAN_SUB,
};

verus! {

/// The stroke in progress: the last accepted pointer position and the one before it.
#[derive(Debug, Clone, Copy)]
pub struct Stroke {
    pub prev: (i64, i64),
    pub pprev: Option<(i64, i64)>,
}

/// The active canvas tool.
#[derive(Debug, Clone, Copy)]
pub enum Tool {
    /// Free-hand drawing; `stroke` is open while a button is held.
    Pen { stroke: Option<Stroke> },
    /// Flood fill on click.
    Fill,
}

/// Brush radius, in half pixels, that size key `k` selects.
pub open spec fn size_key_radius(k: u8) -> Option<u32> {
    if k == 1 {
        Some(1u32)
    } else if k == 2 {
        Some(2u32)
    } else if k == 3 {
        Some(4u32)
    } else if k == 4 {
        Some(6u32)
    } else if k == 5 {
        Some(8u32)
    } else {
        None
    }
}

/// Scrolling with alt held resizes the brush.
pub open spec fn scroll_resizes(input: Input) -> bool {
    input.scroll != 0 && !input.ctrl_down && !input.shift_down && input.alt_down
}

/// The view after the scroll wheel: zoom about the pointer with ctrl, horizontal pan
/// with shift, nothing with alt, vertical pan otherwise.
pub open spec fn scrolled_view(v: ViewTransform, input: Input) -> ViewTransform {
    if input.scroll == 0 {
        v
    } else if input.ctrl_down {
        zoomed(v, input.mouse_x as int, input.mouse_y as int, input.scroll as int)
    } else if input.shift_down {
        ViewTransform { pan_x: clamp_pan(v.pan_x + input.scroll * SCROLL_PAN_SUB) as i64, ..v }
    } else if input.alt_down {
        v
    } else {
        ViewTransform { pan_y: clamp_pan(v.pan_y + input.scroll * SCROLL_PAN_SUB) as i64, ..v }
    }
}

/// The brush radius after the scroll wheel and the size keys; a radius that these
/// change is never below `MIN_RADIUS`.
pub open spec fn scrolled_radius(r: u32, input: Input) -> int {
    match size_key_radius(input.size_key) {
        Some(k) => k as int,
        None => if scroll_resizes(input) {
            clamp_radius(clamp(r + input.scroll, 0, u32::MAX as int))
        } else {
            r as int
        },
    }
}

/// Middle-button dragging: starts on press, ends on release.
pub open spec fn drag_after(was: bool, input: Input) -> bool {
    if input.middle_pressed || input.middle_released {
        input.middle_pressed
    } else {
        was
    }
}

/// The view after middle-button dragging moved it.
pub open spec fn dragged_view(v: ViewTransform, dragging: bool, input: Input) -> ViewTransform {
    if dragging && (input.mouse_dx != 0 || input.mouse_dy != 0) {
        ViewTransform {
            pan_x: clamp_pan(v.pan_x + input.mouse_dx * crate::transform::sub_per_window_px(
                v.zoom_pow as int,
            )) as i64,
            pan_y: clamp_pan(v.pan_y + input.mouse_dy * crate::transform::sub_per_window_px(
                v.zoom_pow as int,
            )) as i64,
            ..v
        }
    } else {
        v
    }
}

pub open spec fn clamp_coord(v: int) -> int {
    clamp(v, -COORD_LIMIT, COORD_LIMIT as int)
}

/// The canvas pixel under the pointer, pinned to `COORD_LIMIT`.
pub open spec fn pen_pos_spec(v: ViewTransform, input: Input) -> (i64, i64) {
    let p = v.canvas_pos_spec(input.mouse_x as int, input.mouse_y as int);
    (clamp_coord(p.0) as i64, clamp_coord(p.1) as i64)
}

/// The tool after the tool keys.
pub open spec fn tool_after(t: Tool, input: Input) -> Tool {
    if input.fill_key {
        Tool::Fill
    } else if input.brush_key && t is Fill {
        Tool::Pen { stroke: None }
    } else {
        t
    }
}

/// The open stroke moves on to a new pointer position.
pub open spec fn stroke_moves(s: Option<Stroke>, pos: (i64, i64)) -> bool {
    match s {
        Some(st) => st.prev != pos,
        None => false,
    }
}

/// The points drawn when the open stroke `s` moves on to `pos`.
pub open spec fn stroke_points(s: Stroke, pos: (i64, i64)) -> Seq<(i64, i64)> {
    match s.pprev {
        Some(pp) => seq![pp, s.prev, pos],
        None => seq![s.prev, pos],
    }
}

/// The stroke state before a new press is looked at.
pub open spec fn stroke_before_press(s: Option<Stroke>, pos: (i64, i64), input: Input) -> Option<Stroke> {
    if input.left_released || input.right_released {
        None
    } else if stroke_moves(s, pos) {
        Some(Stroke { prev: pos, pprev: Some(s->Some_0.prev) })
    } else {
        s
    }
}

/// A press opens a new stroke at `pos`.
pub open spec fn stroke_starts(s: Option<Stroke>, pos: (i64, i64), input: Input) -> bool {
    stroke_before_press(s, pos, input) is None && (input.left_pressed || input.right_pressed)
}

pub open spec fn stroke_after(s: Option<Stroke>, pos: (i64, i64), input: Input) -> Option<Stroke> {
    if stroke_starts(s, pos, input) {
        Some(Stroke { prev: pos, pprev: None })
    } else {
        stroke_before_press(s, pos, input)
    }
}

/// Pixel color `c` after a stroke through `pts` with `brush`.
pub open spec fn brushed(brush: Brush, pts: Seq<(i64, i64)>, erasing: bool, i: int, j: int, c: Rgba) -> Rgba {
    apply_marks(
        stroke_marks_spec(brush.interp, brush.radius_halves as int, pts),
        brush.radius_halves as int,
        brush.color,
        erasing,
        i,
        j,
        c,
    )
}

/// Pixel (`i`, `j`) of color `c` after one frame of the pen.
pub open spec fn pen_pixel(
    s: Option<Stroke>,
    pos: (i64, i64),
    input: Input,
    erasing: bool,
    brush: Brush,
    i: int,
    j: int,
    c: Rgba,
) -> Rgba {
    let c1 = if stroke_moves(s, pos) {
        brushed(brush, stroke_points(s->Some_0, pos), erasing, i, j, c)
    } else {
        c
    };
    if stroke_starts(s, pos, input) {
        brushed(brush, seq![pos], input.right_pressed, i, j, c1)
    } else {
        c1
    }
}

pub open spec fn stroke_ok(s: Option<Stroke>) -> bool {
    match s {
        Some(st) => in_limit(st.prev.0 as int) && in_limit(st.prev.1 as int) && match st.pprev {
            Some(p) => in_limit(p.0 as int) && in_limit(p.1 as int),
            None => true,
        },
        None => true,
    }
}

/// The drawing canvas, how it is viewed, and the tool that works on it.
pub struct ArtEditor {
    pub canvas: Image,
    pub is_canvas_dirty: bool,
    pub view: ViewTransform,
    pub tool: Tool,
    pub is_erasing: bool,
    pub is_drag_panning: bool,
}

/// Scrolling changed the view (zoom or pan), which needs a redraw.
pub open spec fn scroll_moves_view(input: Input) -> bool {
    input.scroll != 0 && (input.ctrl_down || input.shift_down || !input.alt_down)
}

/// The color a fill click paints with: transparent for the right button.
pub open spec fn fill_color(input: Input, brush: Brush) -> Rgba {
    if input.right_pressed {
        Rgba { r: 0, g: 0, b: 0, a: 0 }
    } else {
        brush.color
    }
}

/// Pixel (`i`, `j`) of `canvas` after a fill click at `pos` with color `c`.
pub open spec fn filled_pixel(canvas: Image, pos: (i64, i64), c: Rgba, i: int, j: int) -> Rgba {
    if canvas.in_bounds(pos.0 as int, pos.1 as int) && connected(
        canvas,
        pos.0 as int,
        pos.1 as int,
        i,
        j,
    ) {
        c
    } else {
        canvas.at(i, j)
    }
}

impl ArtEditor {
    pub open spec fn wf(&self) -> bool {
        &&& self.canvas.wf()
        &&& self.canvas.spec_width() <= COORD_LIMIT
        &&& self.canvas.spec_height() <= COORD_LIMIT
        &&& self.view.wf()
        &&& match self.tool {
            Tool::Pen { stroke } => stroke_ok(stroke),
            Tool::Fill => true,
        }
    }

    /// An editor for `canvas`, unzoomed and unpanned, with the pen and no stroke open.
    pub fn new(canvas: Image) -> (e: ArtEditor)
        requires
            canvas.wf(),
            canvas.spec_width() <= COORD_LIMIT,
            canvas.spec_height() <= COORD_LIMIT,
        ensures
            e.wf(),
            e.canvas == canvas,
            e.is_canvas_dirty,
            e.view == (ViewTransform { zoom_pow: 0, pan_x: 0, pan_y: 0 }),
            e.tool == (Tool::Pen { stroke: None }),
            !e.is_erasing,
            !e.is_drag_panning,
    {
        ArtEditor {
            canvas,
            is_canvas_dirty: true,
            view: ViewTransform::new(),
            tool: Tool::Pen { stroke: None },
            is_erasing: false,
            is_drag_panning: false,
        }
    }

    /// Pans so that canvas pixel (0, 0) shows at window pixel (`x`, `y`) when unzoomed.
    pub fn set_pan(&mut self, x: i64, y: i64)
        requires
            old(self).wf(),
            -COORD_LIMIT <= x <= COORD_LIMIT,
            -COORD_LIMIT <= y <= COORD_LIMIT,
        ensures
            final(self).wf(),
            final(self).view == (ViewTransform {
                pan_x: (x * 16) as i64,
                pan_y: (y * 16) as i64,
                ..old(self).view
            }),
            final(self).canvas == old(self).canvas,
            final(self).tool == old(self).tool,
            final(self).is_canvas_dirty == old(self).is_canvas_dirty,
            final(self).is_erasing == old(self).is_erasing,
            final(self).is_drag_panning == old(self).is_drag_panning,
    {
        self.view.set_pan(x, y);
    }

    /// Replaces the canvas with `canvas`, to be drawn; `TooLarge` leaves everything as it
    /// was when a side exceeds `COORD_LIMIT`.
    pub fn replace_canvas(&mut self, canvas: Image) -> (r: Result<(), ImportError>)
        requires
            old(self).wf(),
            canvas.wf(),
        ensures
            final(self).wf(),
            r is Err <==> (canvas.spec_width() > COORD_LIMIT || canvas.spec_height() > COORD_LIMIT),
            r is Err ==> r == Err::<(), ImportError>(ImportError::TooLarge) && *final(self) == *old(
                self,
            ),
            r is Ok ==> final(self).canvas == canvas && final(self).is_canvas_dirty
                && final(self).view == old(self).view && final(self).tool == old(self).tool,
    {
        if canvas.width() as i64 > COORD_LIMIT || canvas.height() as i64 > COORD_LIMIT {
            return Err(ImportError::TooLarge);
        }
        self.canvas = canvas;
        self.is_canvas_dirty = true;
        Ok(())
    }

    fn pen_pos(&self, input: &Input) -> (p: (i64, i64))
        requires
            self.view.wf(),
        ensures
            p == pen_pos_spec(self.view, *input),
            in_limit(p.0 as int),
            in_limit(p.1 as int),
    {
        let (x, y) = self.view.canvas_pos(input.mouse_x, input.mouse_y);
        let cx = if x < -COORD_LIMIT {
            -COORD_LIMIT
        } else if x > COORD_LIMIT {
            COORD_LIMIT
        } else {
            x
        };
        let cy = if y < -COORD_LIMIT {
            -COORD_LIMIT
        } else if y > COORD_LIMIT {
            COORD_LIMIT
        } else {
            y
        };
        (cx, cy)
    }

    /// One frame of the pen at canvas pixel `pos`.
    fn apply_pen(&mut self, input: &Input, brush: &Brush, pos: (i64, i64), stroke: Option<Stroke>)
        requires
            old(self).wf(),
            old(self).tool == (Tool::Pen { stroke }),
            in_limit(pos.0 as int),
            in_limit(pos.1 as int),
        ensures
            final(self).wf(),
            final(self).view == old(self).view,
            final(self).is_drag_panning == old(self).is_drag_panning,
            final(self).tool == (Tool::Pen { stroke: stroke_after(stroke, pos, *input) }),
            final(self).is_erasing == if stroke_starts(stroke, pos, *input) {
                input.right_pressed
            } else {
                old(self).is_erasing
            },
            final(self).is_canvas_dirty == (old(self).is_canvas_dirty || stroke_moves(stroke, pos)
                || stroke_starts(stroke, pos, *input)),
            final(self).canvas.spec_width() == old(self).canvas.spec_width(),
            final(self).canvas.spec_height() == old(self).canvas.spec_height(),
            forall|i: int, j: int|
                final(self).canvas.in_bounds(i, j) ==> #[trigger] final(self).canvas.at(i, j)
                    == pen_pixel(
                    stroke,
                    pos,
                    *input,
                    old(self).is_erasing,
                    *brush,
                    i,
                    j,
                    old(self).canvas.at(i, j),
                ),
    {
        let ghost c0 = self.canvas;
        let mut s = stroke;
        let mut dirty = self.is_canvas_dirty;
        match stroke {
            Some(st) => {
                if st.prev.0 != pos.0 || st.prev.1 != pos.1 {
                    let mut pts: Vec<(i64, i64)> = Vec::new();
                    match st.pprev {
                        Some(pp) => pts.push(pp),
                        None => {},
                    }
                    pts.push(st.prev);
                    pts.push(pos);
                    proof {
                        assert(pts@ =~= stroke_points(st, pos));
                    }
                    brush.paint(&mut self.canvas, &pts, self.is_erasing);
                    s = Some(Stroke { prev: pos, pprev: Some(st.prev) });
                    dirty = true;
                }
            },
            None => {},
        }
        let ghost c1 = self.canvas;
        if input.left_released || input.right_released {
            s = None;
        }
        let starts = s.is_none() && (input.left_pressed || input.right_pressed);
        if starts {
            s = Some(Stroke { prev: pos, pprev: None });
            self.is_erasing = input.right_pressed;
            let mut pts: Vec<(i64, i64)> = Vec::new();
            pts.push(pos);
            proof {
                assert(pts@ =~= seq![pos]);
            }
            brush.paint(&mut self.canvas, &pts, self.is_erasing);
            dirty = true;
        }
        self.tool = Tool::Pen { stroke: s };
        self.is_canvas_dirty = dirty;
        proof {
            assert forall|i: int, j: int| self.canvas.in_bounds(i, j) implies #[trigger] self.canvas.at(
                i,
                j,
            ) == pen_pixel(stroke, pos, *input, old(self).is_erasing, *brush, i, j, c0.at(i, j)) by {
                if stroke_moves(stroke, pos) {
                    assert(c1.at(i, j) == brushed(
                        *brush,
                        stroke_points(stroke->Some_0, pos),
                        old(self).is_erasing,
                        i,
                        j,
                        c0.at(i, j),
                    ));
                } else {
                    assert(c1.at(i, j) == c0.at(i, j));
                }
            }
        }
    }

    /// Applies the scroll wheel and the size keys; reports whether the canvas view
    /// changed.
    fn navigate(&mut self, input: &Input, brush: &mut Brush) -> (moved: bool)
        requires
            old(self).wf(),
        ensures
            final(self).wf(),
            final(self).view == scrolled_view(old(self).view, *input),
            final(self).canvas == old(self).canvas,
            final(self).tool == old(self).tool,
            final(self).is_erasing == old(self).is_erasing,
            final(self).is_drag_panning == old(self).is_drag_panning,
            final(self).is_canvas_dirty == old(self).is_canvas_dirty,
            final(brush).radius_halves == scrolled_radius(old(brush).radius_halves, *input),
            final(brush).color == old(brush).color,
            final(brush).interp == old(brush).interp,
            moved == (scroll_moves_view(*input) || final(brush).radius_halves != old(
                brush,
            ).radius_halves),
    {
        let mut moved = false;
        let mut new_radius: u32 = brush.radius_halves;
        if input.scroll != 0 {
            if input.ctrl_down {
                self.view.zoom_at(input.mouse_x, input.mouse_y, input.scroll);
                moved = true;
            } else if input.shift_down {
                self.view.scroll_pan(input.scroll, true);
                moved = true;
            } else if input.alt_down {
                let r = brush.radius_halves as i64 + input.scroll as i64;
                new_radius = if r < 1 {
                    1
                } else if r > u32::MAX as i64 {
                    u32::MAX
                } else {
                    r as u32
                };
            } else {
                self.view.scroll_pan(input.scroll, false);
                moved = true;
            }
        }
        if input.size_key == 1 {
            new_radius = 1;
        } else if input.size_key == 2 {
            new_radius = 2;
        } else if input.size_key == 3 {
            new_radius = 4;
        } else if input.size_key == 4 {
            new_radius = 6;
        } else if input.size_key == 5 {
            new_radius = 8;
        }
        let changed = new_radius != brush.radius_halves;
        if changed {
            brush.set_radius(new_radius);
        }
        moved || changed
    }

    /// A fill click at canvas pixel `pos`.
    fn apply_fill(&mut self, input: &Input, brush: &Brush, pos: (i64, i64))
        requires
            old(self).wf(),
            in_limit(pos.0 as int),
            in_limit(pos.1 as int),
        ensures
            final(self).wf(),
            final(self).view == old(self).view,
            final(self).is_drag_panning == old(self).is_drag_panning,
            final(self).tool == old(self).tool,
            final(self).is_erasing == old(self).is_erasing,
            final(self).is_canvas_dirty == (old(self).is_canvas_dirty || input.left_pressed
                || input.right_pressed),
            final(self).canvas.spec_width() == old(self).canvas.spec_width(),
            final(self).canvas.spec_height() == old(self).canvas.spec_height(),
            forall|i: int, j: int|
                final(self).canvas.in_bounds(i, j) ==> #[trigger] final(self).canvas.at(i, j) == if input.left_pressed
                    || input.right_pressed {
                    filled_pixel(old(self).canvas, pos, fill_color(*input, *brush), i, j)
                } else {
                    old(self).canvas.at(i, j)
                },
    {
        if input.left_pressed || input.right_pressed {
            let c = if input.right_pressed {
                Rgba { r: 0, g: 0, b: 0, a: 0 }
            } else {
                brush.color
            };
            let ghost c0 = self.canvas;
            flood_fill(&mut self.canvas, pos.0 as i32, pos.1 as i32, c);
            proof {
                if !c0.in_bounds(pos.0 as int, pos.1 as int) {
                    assert forall|i: int, j: int| self.canvas.in_bounds(i, j) implies #[trigger] self.canvas.at(
                        i,
                        j,
                    ) == c0.at(i, j) by {}
                }
            }
            self.is_canvas_dirty = true;
        }
    }
}

/// What one frame of `ArtEditor::update` does: the editor goes from `old` to `new`, the
/// brush from `b0` to `b1`, and the result is `redraw`.
pub open spec fn art_update_post(
    old: ArtEditor,
    new: ArtEditor,
    b0: Brush,
    b1: Brush,
    input: Input,
    is_awake: bool,
    redraw: Option<Placement>,
) -> bool {
    &&& b1.color == b0.color
    &&& b1.interp == b0.interp
    &&& !is_awake ==> new.canvas == old.canvas
    &&& {
                let v1 = if is_awake {
                    scrolled_view(old.view, input)
                } else {
                    old.view
                };
                let drag = if is_awake {
                    drag_after(old.is_drag_panning, input)
                } else {
                    old.is_drag_panning
                };
                let v2 = if is_awake {
                    dragged_view(v1, drag, input)
                } else {
                    v1
                };
                let radius = if is_awake {
                    scrolled_radius(b0.radius_halves, input)
                } else {
                    b0.radius_halves as int
                };
                let pos = pen_pos_spec(v2, input);
                let tool = if is_awake {
                    tool_after(old.tool, input)
                } else {
                    old.tool
                };
                let worked = is_awake && match tool {
                    Tool::Pen { stroke } => stroke_moves(stroke, pos) || stroke_starts(
                        stroke,
                        pos,
                        input,
                    ),
                    Tool::Fill => input.left_pressed || input.right_pressed,
                };
                let changed = old.is_canvas_dirty || (is_awake && (scroll_moves_view(input)
                    || radius != b0.radius_halves || drag_moves(drag, input))) || worked;
                &&& new.view == v2
                &&& new.is_drag_panning == drag
                &&& b1.radius_halves == radius
                &&& new.tool == if is_awake {
                    match tool {
                        Tool::Pen { stroke } => Tool::Pen { stroke: stroke_after(stroke, pos, input) },
                        Tool::Fill => Tool::Fill,
                    }
                } else {
                    old.tool
                }
                &&& new.is_erasing == if is_awake && tool is Pen && stroke_starts(
                    tool->Pen_stroke,
                    pos,
                    input,
                ) {
                    input.right_pressed
                } else {
                    old.is_erasing
                }
                &&& new.canvas.spec_width() == old.canvas.spec_width()
                &&& new.canvas.spec_height() == old.canvas.spec_height()
                &&& forall|i: int, j: int|
                    new.canvas.in_bounds(i, j) ==> #[trigger] new.canvas.at(i, j)
                        == if !is_awake {
                        old.canvas.at(i, j)
                    } else {
                        match tool {
                            Tool::Pen { stroke } => pen_pixel(
                                stroke,
                                pos,
                                input,
                                old.is_erasing,
                                b1,
                                i,
                                j,
                                old.canvas.at(i, j),
                            ),
                            Tool::Fill => if input.left_pressed || input.right_pressed {
                                filled_pixel(
                                    old.canvas,
                                    pos,
                                    fill_color(input, b1),
                                    i,
                                    j,
                                )
                            } else {
                                old.canvas.at(i, j)
                            },
                        }
                    }
                &&& redraw == if changed {
                    Some(
                        placement_spec(
                            v2,
                            old.canvas.spec_width(),
                            old.canvas.spec_height(),
                        ),
                    )
                } else {
                    None
                }
                &&& !new.is_canvas_dirty
            }
}

/// Whether pointer motion moves the view this frame.
pub open spec fn drag_moves(dragging: bool, input: Input) -> bool {
    dragging && (input.mouse_dx != 0 || input.mouse_dy != 0)
}

impl ArtEditor {
    /// One frame of the art editor. When awake, in order: the scroll wheel zooms about
    /// the pointer (ctrl), pans (shift: across; no modifier: down) or resizes the brush
    /// (alt), and the size keys set the brush radius; the middle button drags the view;
    /// the tool keys switch between pen and fill; then the active tool works at the
    /// canvas pixel under the pointer. Returns where to show the canvas when it must be
    /// redrawn (a redraw was queued, or the view, brush size or canvas changed), and
    /// leaves no redraw queued.
    #[verifier::rlimit(60)]
    pub fn update(&mut self, input: &Input, brush: &mut Brush, is_awake: bool) -> (redraw: Option<
        Placement,
    >)
        requires
            old(self).wf(),
        ensures
            final(self).wf(),
            art_update_post(*old(self), *final(self), *old(brush), *final(brush), *input, is_awake, redraw),
    {
        if is_awake {
            let moved = self.navigate(input, brush);
            if moved {
                self.is_canvas_dirty = true;
            }
            if input.middle_pressed || input.middle_released {
                self.is_drag_panning = input.middle_pressed;
            }
            if self.is_drag_panning && (input.mouse_dx != 0 || input.mouse_dy != 0) {
                self.view.drag(input.mouse_dx, input.mouse_dy);
                self.is_canvas_dirty = true;
            }
            let pos = self.pen_pos(input);
            if input.fill_key {
                self.tool = Tool::Fill;
            } else if input.brush_key {
                match self.tool {
                    Tool::Fill => {
                        self.tool = Tool::Pen { stroke: None };
                    },
                    Tool::Pen { .. } => {},
                }
            }
            match self.tool {
                Tool::Pen { stroke } => {
                    self.apply_pen(input, brush, pos, stroke);
                },
                Tool::Fill => {
                    self.apply_fill(input, brush, pos);
                },
            }
        }
        let redraw = if self.is_canvas_dirty {
            Some(self.view.placement(self.canvas.width(), self.canvas.height()))
        } else {
            None
        };
        self.is_canvas_dirty = false;
        redraw
    }
}

impl Editor for ArtEditor {
    open spec fn dirty_spec(&self) -> bool {
        self.is_canvas_dirty
    }

    /// A view drag or an open pen stroke keeps the focus.
    open spec fn focused_spec(&self) -> bool {
        self.is_drag_panning || match self.tool {
            Tool::Pen { stroke } => stroke is Some,
            Tool::Fill => false,
        }
    }

    open spec fn marked_dirty(&self) -> ArtEditor {
        ArtEditor { is_canvas_dirty: true, ..*self }
    }

    fn mark_dirty(&mut self) {
        self.is_canvas_dirty = true;
    }

    fn is_dirty(&self) -> (d: bool) {
        self.is_canvas_dirty
    }

    fn is_focused(&self) -> (f: bool) {
        self.is_drag_panning || match self.tool {
            Tool::Pen { stroke } => stroke.is_some(),
            Tool::Fill => false,
        }
    }
}

} // verus!
