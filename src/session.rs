use vstd::prelude::*;
use crate::brush::Brush;
use crate::editor::{Editor, EditorID, Input};
use crate::editor::art::{ArtEditor, Tool, art_update_post};
use crate::editor::color::{ColorEditor, Hsv, HEIGHT, color_update_post};
use crate::frame::Frame;
use crate::geometry::COORD_LIMIT;
use crate::image::Image;
use crate::transform::{Placement, ViewTransform};

verus! {

/// The editor that owns input this frame: the one holding focus keeps it; with none
/// focused, the pointer picks the color editor above `HEIGHT` and the art editor below.
pub open spec fn resolve_focus_spec(
    current: EditorID,
    art_focused: bool,
    color_focused: bool,
    mouse_y: int,
) -> EditorID {
    if art_focused || color_focused {
        current
    } else if mouse_y < HEIGHT {
        EditorID::Color
    } else {
        EditorID::Art
    }
}

pub fn resolve_focus(current: EditorID, art_focused: bool, color_focused: bool, mouse_y: i32) -> (e:
    EditorID)
    ensures
        e == resolve_focus_spec(current, art_focused, color_focused, mouse_y as int),
{
    if art_focused || color_focused {
        current
    } else if mouse_y < HEIGHT {
        EditorID::Color
    } else {
        EditorID::Art
    }
}

/// What the presentation layer must do after a frame.
#[derive(Debug, Clone, Copy, PartialEq, Eq, Structural)]
pub struct FrameActions {
    /// Allocate the window-sized frame buffer anew.
    pub realloc_frame: bool,
    /// Redraw the color editor's strip.
    pub color_redraw: bool,
    /// Redraw the canvas at this placement.
    pub art_redraw: Option<Placement>,
    /// Present the frame.
    pub present: bool,
}

/// The brush, both editors, which of them owns input, and the frame they draw into.
pub struct Session {
    pub brush: Brush,
    pub art: ArtEditor,
    pub color: ColorEditor,
    pub current_editor: EditorID,
    pub frame: Frame,
}

/// The frame after following a resize to `width` by `height`: a new size means a new
/// buffer, which must be presented.
pub open spec fn resized_frame(f: Frame, resized: bool, width: i32, height: i32) -> Frame {
    if resized && (width != f.width || height != f.height) {
        Frame { width, height, dirty: true }
    } else {
        f
    }
}

impl Session {
    /// Both editors are well formed, and an editor that holds focus owns input.
    pub open spec fn wf(&self) -> bool {
        &&& self.art.wf()
        &&& self.color.wf()
        &&& self.art.focused_spec() ==> self.current_editor == EditorID::Art
        &&& self.color.focused_spec() ==> self.current_editor == EditorID::Color
    }

    /// A session on `canvas`, shown just below the color editor, for a `width` by
    /// `height` window: the art editor owns input, both editors and the frame are to be
    /// drawn, the pen is active with no stroke open, and the palette is empty.
    pub fn new(canvas: Image, brush: Brush, color: Hsv, width: i32, height: i32) -> (s: Session)
        requires
            canvas.wf(),
            canvas.spec_width() <= COORD_LIMIT,
            canvas.spec_height() <= COORD_LIMIT,
        ensures
            s.wf(),
            s.brush == brush,
            s.art.canvas == canvas,
            s.art.view == (ViewTransform { zoom_pow: 0, pan_x: 0, pan_y: (HEIGHT * 16) as i64 }),
            s.art.tool == (Tool::Pen { stroke: None }),
            s.art.is_canvas_dirty,
            !s.art.is_erasing,
            !s.art.is_drag_panning,
            s.color.color_hsv == color,
            s.color.is_colorwheel_dirty,
            !s.color.is_dragging_wheel,
            s.color.palette.view_colors() == Seq::<Hsv>::empty(),
            s.current_editor == EditorID::Art,
            s.frame == (Frame { width, height, dirty: true }),
    {
        let mut art = ArtEditor::new(canvas);
        art.set_pan(0, HEIGHT as i64);
        Session {
            brush,
            art,
            color: ColorEditor::new(color),
            current_editor: EditorID::Art,
            frame: Frame::new(width, height),
        }
    }

    /// One frame: follows a window resize (both editors then redraw), resolves which
    /// editor owns input, runs the color editor and then the art editor with only the
    /// owner awake, and says what to redraw and whether to present.
    #[verifier::rlimit(60)]
    pub fn step(&mut self, input: &Input, resized: bool, width: i32, height: i32) -> (act:
        FrameActions)
        requires
            old(self).wf(),
        ensures
            final(self).wf(),
            !(final(self).art.focused_spec() && final(self).color.focused_spec()),
            (old(self).art.focused_spec() || old(self).color.focused_spec())
                ==> final(self).current_editor == old(self).current_editor,
            ({
                let art0 = if resized {
                    old(self).art.marked_dirty()
                } else {
                    old(self).art
                };
                let color0 = if resized {
                    old(self).color.marked_dirty()
                } else {
                    old(self).color
                };
                let cur = resolve_focus_spec(
                    old(self).current_editor,
                    old(self).art.focused_spec(),
                    old(self).color.focused_spec(),
                    input.mouse_y as int,
                );
                let mid = Brush {
                    radius_halves: old(self).brush.radius_halves,
                    color: old(self).brush.color,
                    interp: final(self).brush.interp,
                };
                let f0 = resized_frame(old(self).frame, resized, width, height);
                &&& final(self).current_editor == cur
                &&& color_update_post(
                    color0,
                    final(self).color,
                    old(self).brush,
                    mid,
                    *input,
                    cur == EditorID::Color,
                    act.color_redraw,
                )
                &&& art_update_post(
                    art0,
                    final(self).art,
                    mid,
                    final(self).brush,
                    *input,
                    cur == EditorID::Art,
                    act.art_redraw,
                )
                &&& act.realloc_frame == (resized && (width != old(self).frame.width || height
                    != old(self).frame.height))
                &&& act.present == (f0.dirty || act.color_redraw || act.art_redraw is Some)
                &&& final(self).frame == (Frame { dirty: false, ..f0 })
            }),
    {
        let mut realloc = false;
        if resized {
            realloc = self.frame.resize(width, height);
            self.art.mark_dirty();
            self.color.mark_dirty();
        }
        let color_focused = self.color.is_focused();
        let art_focused = self.art.is_focused();
        self.current_editor = resolve_focus(
            self.current_editor,
            art_focused,
            color_focused,
            input.mouse_y,
        );
        let color_awake = match self.current_editor {
            EditorID::Color => true,
            EditorID::Art => false,
        };
        let ghost b0 = self.brush;
        let color_redraw = self.color.update(input, &mut self.brush, color_awake);
        let ghost b1 = self.brush;
        let art_redraw = self.art.update(input, &mut self.brush, !color_awake);
        proof {
            assert(b1 == Brush {
                radius_halves: b0.radius_halves,
                color: b0.color,
                interp: self.brush.interp,
            });
        }
        if color_redraw || art_redraw.is_some() {
            self.frame.begin_drawing();
        }
        let present = self.frame.is_dirty();
        if present {
            self.frame.present();
        }
        FrameActions { realloc_frame: realloc, color_redraw, art_redraw, present }
    }
}

/// Whatever frames a session has gone through since `Session::new`, the two editors never
/// both hold focus.
pub proof fn lemma_focus_exclusive(s: Session)
    requires
        s.wf(),
    ensures
        !(s.art.focused_spec() && s.color.focused_spec()),
{
}

} // verus!
