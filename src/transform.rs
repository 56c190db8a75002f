use vstd::prelude::*;

verus! {

/// Smallest zoom exponent: one window pixel per 16 canvas pixels.
pub const ZOOM_MIN: i32 = -4;

/// Largest zoom exponent: 16 window pixels per canvas pixel.
pub const ZOOM_MAX: i32 = 4;

/// Pan is kept in sixteenths of a canvas pixel, which holds every pan that pointer
/// motion at any zoom in `ZOOM_MIN..=ZOOM_MAX` can produce.
pub const SUB: i64 = 16;

/// Bound on each pan coordinate, in sixteenths of a canvas pixel.
pub const PAN_LIMIT: i64 = 0x100_0000_0000;

/// Canvas pixels panned by one step of the scroll wheel.
pub const SCROLL_PAN: i64 = 20;

/// `SCROLL_PAN` in sixteenths of a canvas pixel.
pub const SCROLL_PAN_SUB: i64 = 320;

pub open spec fn pow2(n: nat) -> int
    decreases n,
{
    if n == 0 {
        1
    } else {
        2 * pow2((n - 1) as nat)
    }
}

/// Sixteenths of a canvas pixel per window pixel at zoom exponent `z`: `2^(4 - z)`.
pub open spec fn sub_per_window_px(z: int) -> int {
    pow2((4 - z) as nat)
}

/// Sixteenths of a window pixel per canvas pixel at zoom exponent `z`: `2^(z + 4)`.
pub open spec fn sub_per_canvas_px(z: int) -> int {
    pow2((z + 4) as nat)
}

pub open spec fn clamp(v: int, lo: int, hi: int) -> int {
    if v < lo {
        lo
    } else if v > hi {
        hi
    } else {
        v
    }
}

pub open spec fn clamp_pan(v: int) -> int {
    clamp(v, -PAN_LIMIT, PAN_LIMIT as int)
}

/// Floor of `a / SUB`.
pub open spec fn floor_sub(a: int) -> int {
    a / 16
}

/// `a / SUB` rounded to nearest, halves away from zero.
pub open spec fn round_sub(a: int) -> int {
    if a >= 0 {
        (a + 8) / 16
    } else {
        -((-a + 8) / 16)
    }
}

fn scale_for(z: i32) -> (s: i64)
    requires
        ZOOM_MIN <= z <= ZOOM_MAX,
    ensures
        s == sub_per_window_px(z as int),
        1 <= s <= 256,
{
    proof {
        reveal_with_fuel(pow2, 9);
    }
    if z == -4 {
        256
    } else if z == -3 {
        128
    } else if z == -2 {
        64
    } else if z == -1 {
        32
    } else if z == 0 {
        16
    } else if z == 1 {
        8
    } else if z == 2 {
        4
    } else if z == 3 {
        2
    } else {
        1
    }
}

fn zoom_factor_sub(z: i32) -> (s: i64)
    requires
        ZOOM_MIN <= z <= ZOOM_MAX,
    ensures
        s == sub_per_canvas_px(z as int),
        1 <= s <= 256,
{
    proof {
        reveal_with_fuel(pow2, 9);
    }
    if z == -4 {
        1
    } else if z == -3 {
        2
    } else if z == -2 {
        4
    } else if z == -1 {
        8
    } else if z == 0 {
        16
    } else if z == 1 {
        32
    } else if z == 2 {
        64
    } else if z == 3 {
        128
    } else {
        256
    }
}

fn clamp_pan_exec(v: i64) -> (r: i64)
    ensures
        r == clamp_pan(v as int),
{
    if v < -PAN_LIMIT {
        -PAN_LIMIT
    } else if v > PAN_LIMIT {
        PAN_LIMIT
    } else {
        v
    }
}

/// Where the canvas buffer is shown, in sixteenths of a window pixel.
#[derive(Debug, Clone, Copy, PartialEq, Eq, Structural)]
pub struct Placement {
    pub x: i64,
    pub y: i64,
    pub width: i64,
    pub height: i64,
}

/// Pan and power-of-two zoom of the canvas within the window.
#[derive(Debug, Clone, Copy, PartialEq, Eq, Structural)]
pub struct ViewTransform {
    /// The zoom factor is `2^zoom_pow`.
    pub zoom_pow: i32,
    /// Horizontal pan, in sixteenths of a canvas pixel.
    pub pan_x: i64,
    /// Vertical pan, in sixteenths of a canvas pixel.
    pub pan_y: i64,
}

/// Position under window coordinate `m`, in sixteenths of a canvas pixel: `m / 2^z - pan`.
pub open spec fn canvas_sub(z: int, pan: int, m: int) -> int {
    m * sub_per_window_px(z) - pan
}

/// The view after zooming by `steps` about the window point (`mx`, `my`).
pub open spec fn zoomed(v: ViewTransform, mx: int, my: int, steps: int) -> ViewTransform {
    let z = clamp(v.zoom_pow + steps, ZOOM_MIN as int, ZOOM_MAX as int);
    let d = sub_per_window_px(z) - sub_per_window_px(v.zoom_pow as int);
    ViewTransform {
        zoom_pow: z as i32,
        pan_x: clamp_pan(v.pan_x + mx * d) as i64,
        pan_y: clamp_pan(v.pan_y + my * d) as i64,
    }
}

/// Where a `width` by `height` canvas is shown under view `v`.
pub open spec fn placement_spec(v: ViewTransform, width: int, height: int) -> Placement {
    let f = sub_per_canvas_px(v.zoom_pow as int);
    Placement {
        x: (round_sub(v.pan_x as int) * f) as i64,
        y: (round_sub(v.pan_y as int) * f) as i64,
        width: (width * f) as i64,
        height: (height * f) as i64,
    }
}

impl ViewTransform {
    pub open spec fn wf(&self) -> bool {
        &&& ZOOM_MIN <= self.zoom_pow <= ZOOM_MAX
        &&& -PAN_LIMIT <= self.pan_x <= PAN_LIMIT
        &&& -PAN_LIMIT <= self.pan_y <= PAN_LIMIT
    }

    /// Canvas pixel under window point (`mx`, `my`): the floor of `m / 2^z - round(pan)`.
    /// The pan is rounded to whole canvas pixels here as in `placement`, so the pixel
    /// picked is the one drawn under the pointer.
    pub open spec fn canvas_pos_spec(&self, mx: int, my: int) -> (int, int) {
        (
            floor_sub(canvas_sub(self.zoom_pow as int, round_sub(self.pan_x as int) * 16, mx)),
            floor_sub(canvas_sub(self.zoom_pow as int, round_sub(self.pan_y as int) * 16, my)),
        )
    }

    /// Unzoomed, unpanned.
    pub fn new() -> (v: ViewTransform)
        ensures
            v.wf(),
            v == (ViewTransform { zoom_pow: 0, pan_x: 0, pan_y: 0 }),
    {
        ViewTransform { zoom_pow: 0, pan_x: 0, pan_y: 0 }
    }

    /// Sets the pan to (`x`, `y`) whole canvas pixels.
    pub fn set_pan(&mut self, x: i64, y: i64)
        requires
            -PAN_LIMIT <= x * SUB <= PAN_LIMIT,
            -PAN_LIMIT <= y * SUB <= PAN_LIMIT,
        ensures
            *final(self) == (ViewTransform { pan_x: (x * SUB) as i64, pan_y: (y * SUB) as i64, ..*old(self) }),
    {
        self.pan_x = x * SUB;
        self.pan_y = y * SUB;
    }

    /// The canvas pixel under window point (`mx`, `my`).
    pub fn canvas_pos(&self, mx: i32, my: i32) -> (p: (i64, i64))
        requires
            self.wf(),
        ensures
            p.0 == self.canvas_pos_spec(mx as int, my as int).0,
            p.1 == self.canvas_pos_spec(mx as int, my as int).1,
    {
        let s = scale_for(self.zoom_pow);
        proof {
            assert(-0x8000_0000 * 256 <= mx as int * s <= 0x8000_0000 * 256) by (nonlinear_arith)
                requires
                    1 <= s <= 256,
                    -0x8000_0000 <= mx <= 0x8000_0000,
            ;
            assert(-0x8000_0000 * 256 <= my as int * s <= 0x8000_0000 * 256) by (nonlinear_arith)
                requires
                    1 <= s <= 256,
                    -0x8000_0000 <= my <= 0x8000_0000,
            ;
        }
        let qx = mx as i64 * s - round_div_sub(self.pan_x) * SUB;
        let qy = my as i64 * s - round_div_sub(self.pan_y) * SUB;
        (floor_div_sub(qx), floor_div_sub(qy))
    }

    /// Zooms by `steps` powers of two, clamped to `ZOOM_MIN..=ZOOM_MAX`, keeping the canvas
    /// point under window point (`mx`, `my`) in place.
    pub fn zoom_at(&mut self, mx: i32, my: i32, steps: i32)
        requires
            old(self).wf(),
        ensures
            final(self).wf(),
            *final(self) == zoomed(*old(self), mx as int, my as int, steps as int),
    {
        let old_scale = scale_for(self.zoom_pow);
        let sum = self.zoom_pow as i64 + steps as i64;
        let z: i32 = if sum < ZOOM_MIN as i64 {
            ZOOM_MIN
        } else if sum > ZOOM_MAX as i64 {
            ZOOM_MAX
        } else {
            sum as i32
        };
        let d = scale_for(z) - old_scale;
        proof {
            assert(-0x8000_0000 * 255 <= mx as int * d <= 0x8000_0000 * 255) by (nonlinear_arith)
                requires
                    -255 <= d <= 255,
                    -0x8000_0000 <= mx <= 0x8000_0000,
            ;
            assert(-0x8000_0000 * 255 <= my as int * d <= 0x8000_0000 * 255) by (nonlinear_arith)
                requires
                    -255 <= d <= 255,
                    -0x8000_0000 <= my <= 0x8000_0000,
            ;
        }
        self.pan_x = clamp_pan_exec(self.pan_x + mx as i64 * d);
        self.pan_y = clamp_pan_exec(self.pan_y + my as i64 * d);
        self.zoom_pow = z;
    }

    /// Pans by (`dx`, `dy`) window pixels of pointer motion, clamped to `PAN_LIMIT`.
    pub fn drag(&mut self, dx: i32, dy: i32)
        requires
            old(self).wf(),
        ensures
            final(self).wf(),
            final(self).zoom_pow == old(self).zoom_pow,
            final(self).pan_x == clamp_pan(
                old(self).pan_x + dx * sub_per_window_px(old(self).zoom_pow as int),
            ),
            final(self).pan_y == clamp_pan(
                old(self).pan_y + dy * sub_per_window_px(old(self).zoom_pow as int),
            ),
    {
        let s = scale_for(self.zoom_pow);
        proof {
            assert(-0x8000_0000 * 256 <= dx as int * s <= 0x8000_0000 * 256) by (nonlinear_arith)
                requires
                    1 <= s <= 256,
                    -0x8000_0000 <= dx <= 0x8000_0000,
            ;
            assert(-0x8000_0000 * 256 <= dy as int * s <= 0x8000_0000 * 256) by (nonlinear_arith)
                requires
                    1 <= s <= 256,
                    -0x8000_0000 <= dy <= 0x8000_0000,
            ;
        }
        self.pan_x = clamp_pan_exec(self.pan_x + dx as i64 * s);
        self.pan_y = clamp_pan_exec(self.pan_y + dy as i64 * s);
    }

    /// Pans by `steps` scroll steps of `SCROLL_PAN` canvas pixels each, horizontally or
    /// vertically, clamped to `PAN_LIMIT`.
    pub fn scroll_pan(&mut self, steps: i32, horizontal: bool)
        requires
            old(self).wf(),
        ensures
            final(self).wf(),
            final(self).zoom_pow == old(self).zoom_pow,
            horizontal ==> final(self).pan_x == clamp_pan(old(self).pan_x + steps * SCROLL_PAN_SUB)
                && final(self).pan_y == old(self).pan_y,
            !horizontal ==> final(self).pan_y == clamp_pan(old(self).pan_y + steps * SCROLL_PAN_SUB)
                && final(self).pan_x == old(self).pan_x,
    {
        let d = steps as i64 * SCROLL_PAN_SUB;
        if horizontal {
            self.pan_x = clamp_pan_exec(self.pan_x + d);
        } else {
            self.pan_y = clamp_pan_exec(self.pan_y + d);
        }
    }

    /// Where a `width` by `height` canvas is shown: at the pan rounded to whole canvas
    /// pixels, times the zoom factor, and at the canvas size times the zoom factor.
    pub fn placement(&self, width: u32, height: u32) -> (p: Placement)
        requires
            self.wf(),
        ensures
            p.x == round_sub(self.pan_x as int) * sub_per_canvas_px(self.zoom_pow as int),
            p.y == round_sub(self.pan_y as int) * sub_per_canvas_px(self.zoom_pow as int),
            p.width == width * sub_per_canvas_px(self.zoom_pow as int),
            p.height == height * sub_per_canvas_px(self.zoom_pow as int),
            p == placement_spec(*self, width as int, height as int),
    {
        let f = zoom_factor_sub(self.zoom_pow);
        let rx = round_div_sub(self.pan_x);
        let ry = round_div_sub(self.pan_y);
        proof {
            assert(-(PAN_LIMIT as int) * 256 <= rx * f <= PAN_LIMIT * 256) by (nonlinear_arith)
                requires
                    1 <= f <= 256,
                    -PAN_LIMIT <= rx <= PAN_LIMIT,
            ;
            assert(-(PAN_LIMIT as int) * 256 <= ry * f <= PAN_LIMIT * 256) by (nonlinear_arith)
                requires
                    1 <= f <= 256,
                    -PAN_LIMIT <= ry <= PAN_LIMIT,
            ;
            assert(0 <= width * f <= 0x1_0000_0000 * 256) by (nonlinear_arith)
                requires
                    1 <= f <= 256,
                    0 <= width <= 0xffff_ffff,
            ;
            assert(0 <= height * f <= 0x1_0000_0000 * 256) by (nonlinear_arith)
                requires
                    1 <= f <= 256,
                    0 <= height <= 0xffff_ffff,
            ;
        }
        Placement { x: rx * f, y: ry * f, width: width as i64 * f, height: height as i64 * f }
    }
}

fn floor_div_sub(a: i64) -> (r: i64)
    ensures
        r == floor_sub(a as int),
{
    if a >= 0 {
        a / SUB
    } else {
        let q = -((-(a + 1)) / SUB) - 1;
        q
    }
}

fn round_div_sub(a: i64) -> (r: i64)
    requires
        -PAN_LIMIT <= a <= PAN_LIMIT,
    ensures
        r == round_sub(a as int),
        -PAN_LIMIT <= r <= PAN_LIMIT,
{
    if a >= 0 {
        (a + 8) / SUB
    } else {
        -((-a + 8) / SUB)
    }
}

/// Rounding to whole pixels moves a position by at most half a pixel.
proof fn lemma_round_sub_close(p: int)
    ensures
        -8 <= p - 16 * round_sub(p) <= 8,
{
}

/// Positions less than a pixel apart fall in the same or neighbouring pixels.
proof fn lemma_floor_close(a: int, b: int)
    requires
        -16 <= a - b <= 16,
    ensures
        -1 <= floor_sub(a) - floor_sub(b) <= 1,
{
}

/// Zooming about a window point keeps the canvas point under it exactly where it was,
/// as long as the pan stays within `PAN_LIMIT`; the whole canvas pixel picked there,
/// which goes by the pan rounded to whole pixels, moves by at most one.
pub proof fn lemma_zoom_keeps_anchor(v: ViewTransform, mx: i32, my: i32, steps: i32)
    requires
        v.wf(),
        ({
            let z = clamp(v.zoom_pow + steps, ZOOM_MIN as int, ZOOM_MAX as int);
            let d = sub_per_window_px(z) - sub_per_window_px(v.zoom_pow as int);
            &&& -PAN_LIMIT <= v.pan_x + mx * d <= PAN_LIMIT
            &&& -PAN_LIMIT <= v.pan_y + my * d <= PAN_LIMIT
        }),
    ensures
        ({
            let w = zoomed(v, mx as int, my as int, steps as int);
            let before = v.canvas_pos_spec(mx as int, my as int);
            let after = w.canvas_pos_spec(mx as int, my as int);
            &&& canvas_sub(w.zoom_pow as int, w.pan_x as int, mx as int) == canvas_sub(
                v.zoom_pow as int,
                v.pan_x as int,
                mx as int,
            )
            &&& canvas_sub(w.zoom_pow as int, w.pan_y as int, my as int) == canvas_sub(
                v.zoom_pow as int,
                v.pan_y as int,
                my as int,
            )
            &&& -1 <= after.0 - before.0 <= 1
            &&& -1 <= after.1 - before.1 <= 1
        }),
{
    let z = clamp(v.zoom_pow + steps, ZOOM_MIN as int, ZOOM_MAX as int);
    let a = sub_per_window_px(z);
    let b = sub_per_window_px(v.zoom_pow as int);
    let w = zoomed(v, mx as int, my as int, steps as int);
    assert(mx * a - (v.pan_x + mx * (a - b)) == mx * b - v.pan_x) by (nonlinear_arith);
    assert(my * a - (v.pan_y + my * (a - b)) == my * b - v.pan_y) by (nonlinear_arith);
    lemma_round_sub_close(v.pan_x as int);
    lemma_round_sub_close(w.pan_x as int);
    lemma_round_sub_close(v.pan_y as int);
    lemma_round_sub_close(w.pan_y as int);
    lemma_floor_close(
        canvas_sub(w.zoom_pow as int, round_sub(w.pan_x as int) * 16, mx as int),
        canvas_sub(v.zoom_pow as int, round_sub(v.pan_x as int) * 16, mx as int),
    );
    lemma_floor_close(
        canvas_sub(w.zoom_pow as int, round_sub(w.pan_y as int) * 16, my as int),
        canvas_sub(v.zoom_pow as int, round_sub(v.pan_y as int) * 16, my as int),
    );
}

} // verus!
