use vstd::prelude::*;

verus! {

/// The window-sized frame that both editors draw into, and whether it must be presented.
#[derive(Debug, Clone, Copy, PartialEq, Eq, Structural)]
pub struct Frame {
    pub width: i32,
    pub height: i32,
    pub dirty: bool,
}

impl Frame {
    /// A frame for a `width` by `height` window; it starts out needing presentation.
    pub fn new(width: i32, height: i32) -> (f: Frame)
        ensures
            f == (Frame { width, height, dirty: true }),
    {
        Frame { width, height, dirty: true }
    }

    /// Follows a window resize. When the size differs, the frame buffer must be
    /// allocated anew (the result says so) and the frame presented again.
    pub fn resize(&mut self, width: i32, height: i32) -> (realloc: bool)
        ensures
            realloc == (width != old(self).width || height != old(self).height),
            realloc ==> *final(self) == (Frame { width, height, dirty: true }),
            !realloc ==> *final(self) == *old(self),
    {
        if width != self.width || height != self.height {
            self.width = width;
            self.height = height;
            self.dirty = true;
            true
        } else {
            false
        }
    }

    /// The buffer for the new size could not be allocated, so the old one, `width` by
    /// `height`, stays in use: the frame takes back that size, and a later resize to the
    /// size that failed is tried again.
    pub fn resize_failed(&mut self, width: i32, height: i32)
        ensures
            *final(self) == (Frame { width, height, ..*old(self) }),
    {
        self.width = width;
        self.height = height;
    }

    pub fn is_dirty(&self) -> (d: bool)
        ensures
            d == self.dirty,
    {
        self.dirty
    }

    /// Drawing into the frame means that it must be presented.
    pub fn begin_drawing(&mut self)
        ensures
            *final(self) == (Frame { dirty: true, ..*old(self) }),
    {
        self.dirty = true;
    }

    /// The frame was shown.
    pub fn present(&mut self)
        ensures
            *final(self) == (Frame { dirty: false, ..*old(self) }),
    {
        self.dirty = false;
    }
}

} // verus!
