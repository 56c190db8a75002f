use vstd::prelude::*;

pub mod art;
pub mod color;

verus! {

/// Which editor owns input.
#[derive(Debug, Clone, Copy, PartialEq, Eq, Structural)]
pub enum EditorID {
    Art,
    Color,
}

/// One frame of pointer and keyboard state, in window pixels.
#[derive(Debug, Clone, Copy, PartialEq, Eq, Structural)]
pub struct Input {
    pub mouse_x: i32,
    pub mouse_y: i32,
    /// Pointer motion since the previous frame.
    pub mouse_dx: i32,
    pub mouse_dy: i32,
    /// Scroll-wheel movement this frame, in whole steps.
    pub scroll: i32,
    pub ctrl_down: bool,
    pub shift_down: bool,
    pub alt_down: bool,
    pub left_down: bool,
    pub left_pressed: bool,
    pub left_released: bool,
    pub right_pressed: bool,
    pub right_released: bool,
    pub middle_pressed: bool,
    pub middle_released: bool,
    /// The brush-size key pressed this frame, `1..=5`, or 0 for none.
    pub size_key: u8,
    /// The fill-tool key was pressed.
    pub fill_key: bool,
    /// The brush-tool key was pressed.
    pub brush_key: bool,
    /// The key that commits the current color to the palette was pressed.
    pub commit_key: bool,
}

impl Input {
    /// A frame in which the pointer rests at (`x`, `y`) and nothing is pressed.
    pub fn idle(x: i32, y: i32) -> (i: Input)
        ensures
            i == (Input {
                mouse_x: x,
                mouse_y: y,
                mouse_dx: 0,
                mouse_dy: 0,
                scroll: 0,
                ctrl_down: false,
                shift_down: false,
                alt_down: false,
                left_down: false,
                left_pressed: false,
                left_released: false,
                right_pressed: false,
                right_released: false,
                middle_pressed: false,
                middle_released: false,
                size_key: 0,
                fill_key: false,
                brush_key: false,
                commit_key: false,
            }),
    {
        Input {
            mouse_x: x,
            mouse_y: y,
            mouse_dx: 0,
            mouse_dy: 0,
            scroll: 0,
            ctrl_down: false,
            shift_down: false,
            alt_down: false,
            left_down: false,
            left_pressed: false,
            left_released: false,
            right_pressed: false,
            right_released: false,
            middle_pressed: false,
            middle_released: false,
            size_key: 0,
            fill_key: false,
            brush_key: false,
            commit_key: false,
        }
    }
}

/// What every editor reports to the frame loop.
pub trait Editor {
    /// A full redraw is queued.
    spec fn dirty_spec(&self) -> bool;

    /// An action in progress belongs to this editor even when the pointer leaves it.
    spec fn focused_spec(&self) -> bool;

    /// This editor with a full redraw queued and nothing else changed.
    spec fn marked_dirty(&self) -> Self where Self: Sized;

    /// Queues a full redraw and changes nothing else.
    fn mark_dirty(&mut self) where Self: Sized
        ensures
            *final(self) == old(self).marked_dirty(),
            final(self).dirty_spec(),
            final(self).focused_spec() == old(self).focused_spec(),
    ;

    /// Whether a full redraw is queued.
    fn is_dirty(&self) -> (d: bool)
        ensures
            d == self.dirty_spec(),
    ;

    /// Whether an action in progress belongs to this editor.
    fn is_focused(&self) -> (f: bool)
        ensures
            f == self.focused_spec(),
    ;
}

} // verus!
