use vstd::prelude::*;
use crate::color::{Rgba, blend_over, blend_over_spec, lemma_blend_opaque};
use crate::geometry::{COORD_LIMIT, in_limit, near_segment, near_segment_exec};
use crate::image::Image;

verus! {

/// How consecutive points of a stroke are joined.
#[derive(Debug, Clone, Copy, PartialEq, Eq, Hash, Structural)]
pub enum InterpStyle {
    /// Every point is stamped on its own.
    Space,
    /// Consecutive points are joined by thick straight segments.
    Line,
    /// Each new point is joined by a quadratic curve through the two before it.
    Curve,
}

/// Smallest brush radius, in half pixels.
pub const MIN_RADIUS: u32 = 1;

/// Straight pieces that a curve is drawn with.
pub const CURVE_STEPS: i64 = 24;

/// One primitive of a stroke.
#[derive(Debug, Clone, Copy, PartialEq, Eq, Structural)]
pub enum Mark {
    /// A single pixel.
    Dot { x: i64, y: i64 },
    /// A filled disc of the brush radius.
    Disc { x: i64, y: i64 },
    /// A segment as thick as the brush.
    Line { x0: i64, y0: i64, x1: i64, y1: i64 },
    /// A quadratic curve from (`x0`, `y0`) to (`x1`, `y1`) whose control point is
    /// (`cx2 / 2`, `cy2 / 2`), as thick as the brush.
    Curve { x0: i64, y0: i64, cx2: i64, cy2: i64, x1: i64, y1: i64 },
}

/// Radius (in half pixels), color and joining style of the brush.
#[derive(Debug, Clone, Copy, PartialEq, Eq, Structural)]
pub struct Brush {
    /// Radius in half pixels; each change made through `set_radius` keeps it at least
    /// `MIN_RADIUS`.
    pub radius_halves: u32,
    pub color: Rgba,
    pub interp: InterpStyle,
}

/// The mark that point `i` of a stroke adds: a stamp for the first point or when
/// points are spaced, otherwise a segment from the point before, or a curve from two
/// points before with control point `2 * previous - (before_previous + current) / 2`.
pub open spec fn mark_for(style: InterpStyle, rh: int, pts: Seq<(i64, i64)>, i: int) -> Mark {
    if style != InterpStyle::Space && i >= 1 {
        if style == InterpStyle::Curve && i >= 2 {
            Mark::Curve {
                x0: pts[i - 2].0,
                y0: pts[i - 2].1,
                cx2: (4 * pts[i - 1].0 - pts[i - 2].0 - pts[i].0) as i64,
                cy2: (4 * pts[i - 1].1 - pts[i - 2].1 - pts[i].1) as i64,
                x1: pts[i].0,
                y1: pts[i].1,
            }
        } else {
            Mark::Line { x0: pts[i - 1].0, y0: pts[i - 1].1, x1: pts[i].0, y1: pts[i].1 }
        }
    } else if rh < 2 {
        Mark::Dot { x: pts[i].0, y: pts[i].1 }
    } else {
        Mark::Disc { x: pts[i].0, y: pts[i].1 }
    }
}

/// The marks of a stroke through `pts`, one per point.
pub open spec fn stroke_marks_spec(style: InterpStyle, rh: int, pts: Seq<(i64, i64)>) -> Seq<Mark> {
    Seq::new(pts.len(), |i: int| mark_for(style, rh, pts, i))
}

pub open spec fn points_in_limit(pts: Seq<(i64, i64)>) -> bool {
    forall|i: int| 0 <= i < pts.len() ==> in_limit(#[trigger] pts[i].0 as int) && in_limit(pts[i].1 as int)
}

/// Coordinate `k` of `CURVE_STEPS` along the quadratic curve from `start` to `end` with
/// doubled control coordinate `c2`, rounded to the nearest pixel.
pub open spec fn curve_pt(start: int, c2: int, end: int, k: int) -> int {
    ((24 - k) * (24 - k) * start + k * (24 - k) * c2 + k * k * end + 288) / 576
}

pub open spec fn min2(a: int, b: int) -> int {
    if a <= b {
        a
    } else {
        b
    }
}

pub open spec fn max2(a: int, b: int) -> int {
    if a >= b {
        a
    } else {
        b
    }
}

pub open spec fn min3(a: int, b: int, c: int) -> int {
    if a <= b && a <= c {
        a
    } else if b <= c {
        b
    } else {
        c
    }
}

pub open spec fn max3(a: int, b: int, c: int) -> int {
    if a >= b && a >= c {
        a
    } else if b >= c {
        b
    } else {
        c
    }
}

/// The box (`x_lo`, `x_hi`, `y_lo`, `y_hi`) outside which a mark paints nothing.
pub open spec fn mark_box(m: Mark, rh: int) -> (int, int, int, int) {
    let e = rh / 2 + 1;
    match m {
        Mark::Dot { x, y } => (x as int, x as int, y as int, y as int),
        Mark::Disc { x, y } => (x - e, x + e, y - e, y + e),
        Mark::Line { x0, y0, x1, y1 } => (
            min2(x0 as int, x1 as int) - e,
            max2(x0 as int, x1 as int) + e,
            min2(y0 as int, y1 as int) - e,
            max2(y0 as int, y1 as int) + e,
        ),
        Mark::Curve { x0, y0, cx2, cy2, x1, y1 } => (
            min3(x0 as int, cx2 / 2, x1 as int) - e - 1,
            max3(x0 as int, cx2 / 2 + 1, x1 as int) + e + 1,
            min3(y0 as int, cy2 / 2, y1 as int) - e - 1,
            max3(y0 as int, cy2 / 2 + 1, y1 as int) + e + 1,
        ),
    }
}

/// Piece `k` of a curve mark covers (`px`, `py`).
pub open spec fn curve_piece_near(
    x0: int,
    y0: int,
    cx2: int,
    cy2: int,
    x1: int,
    y1: int,
    rh: int,
    k: int,
    px: int,
    py: int,
) -> bool {
    near_segment(
        curve_pt(x0, cx2, x1, k),
        curve_pt(y0, cy2, y1, k),
        curve_pt(x0, cx2, x1, k + 1),
        curve_pt(y0, cy2, y1, k + 1),
        rh,
        px,
        py,
    )
}

/// The shape of a mark, before its box is applied.
pub open spec fn shape_covers(m: Mark, rh: int, px: int, py: int) -> bool {
    match m {
        Mark::Dot { x, y } => px == x && py == y,
        Mark::Disc { x, y } => near_segment(x as int, y as int, x as int, y as int, rh, px, py),
        Mark::Line { x0, y0, x1, y1 } => near_segment(
            x0 as int,
            y0 as int,
            x1 as int,
            y1 as int,
            rh,
            px,
            py,
        ),
        Mark::Curve { x0, y0, cx2, cy2, x1, y1 } => exists|k: int|
            0 <= k < 24 && #[trigger] curve_piece_near(
                x0 as int,
                y0 as int,
                cx2 as int,
                cy2 as int,
                x1 as int,
                y1 as int,
                rh,
                k,
                px,
                py,
            ),
    }
}

/// Whether mark `m`, drawn with radius `rh` half pixels, paints pixel (`px`, `py`).
pub open spec fn covers(m: Mark, rh: int, px: int, py: int) -> bool {
    let b = mark_box(m, rh);
    b.0 <= px <= b.1 && b.2 <= py <= b.3 && shape_covers(m, rh, px, py)
}

/// What a touched pixel becomes: transparent when erasing, whatever the brush color;
/// otherwise the brush color laid over it.
pub open spec fn ink(erasing: bool, color: Rgba, dst: Rgba) -> Rgba {
    if erasing {
        Rgba { r: 0, g: 0, b: 0, a: 0 }
    } else {
        blend_over_spec(color, dst)
    }
}

/// A pixel of color `c` after the marks `ms` were drawn over it in order.
pub open spec fn apply_marks(
    ms: Seq<Mark>,
    rh: int,
    color: Rgba,
    erasing: bool,
    px: int,
    py: int,
    c: Rgba,
) -> Rgba
    decreases ms.len(),
{
    if ms.len() == 0 {
        c
    } else {
        let before = apply_marks(ms.drop_last(), rh, color, erasing, px, py, c);
        if covers(ms.last(), rh, px, py) {
            ink(erasing, color, before)
        } else {
            before
        }
    }
}

/// A mark whose coordinates come from points within `COORD_LIMIT`.
pub open spec fn mark_ok(m: Mark) -> bool {
    match m {
        Mark::Dot { x, y } => in_limit(x as int) && in_limit(y as int),
        Mark::Disc { x, y } => in_limit(x as int) && in_limit(y as int),
        Mark::Line { x0, y0, x1, y1 } => in_limit(x0 as int) && in_limit(y0 as int) && in_limit(
            x1 as int,
        ) && in_limit(y1 as int),
        Mark::Curve { x0, y0, cx2, cy2, x1, y1 } => in_limit(x0 as int) && in_limit(y0 as int)
            && in_limit(x1 as int) && in_limit(y1 as int) && -6 * COORD_LIMIT <= cx2 <= 6
            * COORD_LIMIT && -6 * COORD_LIMIT <= cy2 <= 6 * COORD_LIMIT,
    }
}

fn curve_pt_exec(start: i64, c2: i64, end: i64, k: i64) -> (r: i64)
    requires
        in_limit(start as int),
        in_limit(end as int),
        -6 * COORD_LIMIT <= c2 <= 6 * COORD_LIMIT,
        0 <= k <= 24,
    ensures
        r == curve_pt(start as int, c2 as int, end as int, k as int),
        -4 * COORD_LIMIT <= r <= 4 * COORD_LIMIT,
{
    proof {
        assert(0 <= (24 - k) * (24 - k) <= 576 && 0 <= k * (24 - k) <= 576 && 0 <= k * k <= 576)
            by (nonlinear_arith)
            requires
                0 <= k <= 24,
        ;
    }
    let a = (24 - k) * (24 - k);
    let b = k * (24 - k);
    let c = k * k;
    proof {
        let l = COORD_LIMIT as int;
        assert(a + 2 * b + c == 576 && 0 <= a && 0 <= b && 0 <= c) by (nonlinear_arith)
            requires
                a == (24 - k) * (24 - k),
                b == k * (24 - k),
                c == k * k,
                0 <= k <= 24,
        ;
        assert(-1728 * l <= a * start + b * c2 + c * end <= 1728 * l) by (nonlinear_arith)
            requires
                a + 2 * b + c == 576,
                0 <= a,
                0 <= b,
                0 <= c,
                -l <= start <= l,
                -l <= end <= l,
                -6 * l <= c2 <= 6 * l,
                l > 0,
        ;
        assert(-576 * l <= a * start <= 576 * l) by (nonlinear_arith)
            requires
                0 <= a <= 576,
                -l <= start <= l,
                l > 0,
        ;
        assert(-576 * 6 * l <= b * c2 <= 576 * 6 * l) by (nonlinear_arith)
            requires
                0 <= b <= 576,
                -6 * l <= c2 <= 6 * l,
                l > 0,
        ;
        assert(-576 * l <= c * end <= 576 * l) by (nonlinear_arith)
            requires
                0 <= c <= 576,
                -l <= end <= l,
                l > 0,
        ;
    }
    let num = a * start + b * c2 + c * end + 288;
    if num >= 0 {
        num / 576
    } else {
        -((-(num + 1)) / 576) - 1
    }
}

fn min3_exec(a: i64, b: i64, c: i64) -> (r: i64)
    ensures
        r == min3(a as int, b as int, c as int),
{
    if a <= b && a <= c {
        a
    } else if b <= c {
        b
    } else {
        c
    }
}

fn max3_exec(a: i64, b: i64, c: i64) -> (r: i64)
    ensures
        r == max3(a as int, b as int, c as int),
{
    if a >= b && a >= c {
        a
    } else if b >= c {
        b
    } else {
        c
    }
}

/// The part of the mark's box that lies in a `w` by `h` image, as inclusive ranges; a
/// range may be empty.
fn clipped_box(m: Mark, rh: u32, w: i64, h: i64) -> (b: (i64, i64, i64, i64))
    requires
        mark_ok(m),
        0 <= w <= COORD_LIMIT,
        0 <= h <= COORD_LIMIT,
    ensures
        b.0 >= 0,
        b.1 < w,
        b.2 >= 0,
        b.3 < h,
        b.0 == if mark_box(m, rh as int).0 < 0 { 0 } else { mark_box(m, rh as int).0 },
        b.1 == if mark_box(m, rh as int).1 > w - 1 { w - 1 } else { mark_box(m, rh as int).1 },
        b.2 == if mark_box(m, rh as int).2 < 0 { 0 } else { mark_box(m, rh as int).2 },
        b.3 == if mark_box(m, rh as int).3 > h - 1 { h - 1 } else { mark_box(m, rh as int).3 },
{
    let e: i64 = rh as i64 / 2 + 1;
    let (xl, xh, yl, yh): (i64, i64, i64, i64) = match m {
        Mark::Dot { x, y } => (x, x, y, y),
        Mark::Disc { x, y } => (x - e, x + e, y - e, y + e),
        Mark::Line { x0, y0, x1, y1 } => (
            (if x0 <= x1 { x0 } else { x1 }) - e,
            (if x0 >= x1 { x0 } else { x1 }) + e,
            (if y0 <= y1 { y0 } else { y1 }) - e,
            (if y0 >= y1 { y0 } else { y1 }) + e,
        ),
        Mark::Curve { x0, y0, cx2, cy2, x1, y1 } => {
            let hx = if cx2 >= 0 { cx2 / 2 } else { -((-(cx2 + 1)) / 2) - 1 };
            let hy = if cy2 >= 0 { cy2 / 2 } else { -((-(cy2 + 1)) / 2) - 1 };
            (
                min3_exec(x0, hx, x1) - e - 1,
                max3_exec(x0, hx + 1, x1) + e + 1,
                min3_exec(y0, hy, y1) - e - 1,
                max3_exec(y0, hy + 1, y1) + e + 1,
            )
        },
    };
    let x_lo = if xl < 0 { 0 } else { xl };
    let x_hi = if xh > w - 1 { w - 1 } else { xh };
    let y_lo = if yl < 0 { 0 } else { yl };
    let y_hi = if yh > h - 1 { h - 1 } else { yh };
    (x_lo, x_hi, y_lo, y_hi)
}

#[verifier::loop_isolation(false)]
fn shape_covers_exec(m: Mark, rh: u32, px: i64, py: i64) -> (b: bool)
    requires
        mark_ok(m),
        0 <= px <= COORD_LIMIT,
        0 <= py <= COORD_LIMIT,
    ensures
        b == shape_covers(m, rh as int, px as int, py as int),
{
    match m {
        Mark::Dot { x, y } => px == x && py == y,
        Mark::Disc { x, y } => near_segment_exec(x, y, x, y, rh, px, py),
        Mark::Line { x0, y0, x1, y1 } => near_segment_exec(x0, y0, x1, y1, rh, px, py),
        Mark::Curve { x0, y0, cx2, cy2, x1, y1 } => {
            let mut k: i64 = 0;
            while k < CURVE_STEPS
                invariant
                    0 <= k <= 24,
                    mark_ok(m),
                    forall|j: int|
                        0 <= j < k ==> !#[trigger] curve_piece_near(
                            x0 as int,
                            y0 as int,
                            cx2 as int,
                            cy2 as int,
                            x1 as int,
                            y1 as int,
                            rh as int,
                            j,
                            px as int,
                            py as int,
                        ),
                decreases 24 - k,
            {
                let ax = curve_pt_exec(x0, cx2, x1, k);
                let ay = curve_pt_exec(y0, cy2, y1, k);
                let bx = curve_pt_exec(x0, cx2, x1, k + 1);
                let by = curve_pt_exec(y0, cy2, y1, k + 1);
                if near_segment_exec(ax, ay, bx, by, rh, px, py) {
                    assert(curve_piece_near(
                        x0 as int,
                        y0 as int,
                        cx2 as int,
                        cy2 as int,
                        x1 as int,
                        y1 as int,
                        rh as int,
                        k as int,
                        px as int,
                        py as int,
                    ));
                    return true;
                }
                k = k + 1;
            }
            false
        },
    }
}

/// Draws one mark: every pixel it covers becomes `ink` of what was there.
#[verifier::loop_isolation(false)]
fn draw_mark(img: &mut Image, m: Mark, rh: u32, color: Rgba, erasing: bool)
    requires
        old(img).wf(),
        old(img).spec_width() <= COORD_LIMIT,
        old(img).spec_height() <= COORD_LIMIT,
        mark_ok(m),
    ensures
        final(img).wf(),
        final(img).spec_width() == old(img).spec_width(),
        final(img).spec_height() == old(img).spec_height(),
        forall|i: int, j: int|
            final(img).in_bounds(i, j) ==> #[trigger] final(img).at(i, j) == if covers(
                m,
                rh as int,
                i,
                j,
            ) {
                ink(erasing, color, old(img).at(i, j))
            } else {
                old(img).at(i, j)
            },
{
    let ghost start = *img;
    let w = img.width() as i64;
    let h = img.height() as i64;
    let (x_lo, x_hi, y_lo, y_hi) = clipped_box(m, rh, w, h);
    let mut y = y_lo;
    while y <= y_hi
        invariant
            img.wf(),
            img.spec_width() == w,
            img.spec_height() == h,
            y_lo <= y,
            y <= y_hi + 1 || y == y_lo,
            forall|i: int, j: int|
                img.in_bounds(i, j) ==> #[trigger] img.at(i, j) == if j < y && covers(
                    m,
                    rh as int,
                    i,
                    j,
                ) {
                    ink(erasing, color, start.at(i, j))
                } else {
                    start.at(i, j)
                },
        decreases y_hi + 1 - y,
    {
        let mut x = x_lo;
        assert forall|i: int, j: int| img.in_bounds(i, j) implies #[trigger] img.at(i, j) == if (j
            < y || (j == y && i < x)) && covers(m, rh as int, i, j) {
            ink(erasing, color, start.at(i, j))
        } else {
            start.at(i, j)
        } by {
            if j == y && i < x && covers(m, rh as int, i, j) {
                assert(false);
            }
        }
        while x <= x_hi
            invariant
                img.wf(),
                img.spec_width() == w,
                img.spec_height() == h,
                y_lo <= y <= y_hi,
                x_lo <= x,
                x <= x_hi + 1 || x == x_lo,
                forall|i: int, j: int|
                    img.in_bounds(i, j) ==> #[trigger] img.at(i, j) == if (j < y || (j == y && i
                        < x)) && covers(m, rh as int, i, j) {
                        ink(erasing, color, start.at(i, j))
                    } else {
                        start.at(i, j)
                    },
            decreases x_hi + 1 - x,
        {
            if shape_covers_exec(m, rh, x, y) {
                let cur = match img.get_color(x, y) {
                    Some(c) => c,
                    None => Rgba { r: 0, g: 0, b: 0, a: 0 },
                };
                let out = if erasing {
                    Rgba { r: 0, g: 0, b: 0, a: 0 }
                } else {
                    blend_over(color, cur)
                };
                img.set_pixel(x, y, out);
            }
            x = x + 1;
        }
        assert forall|i: int, j: int| img.in_bounds(i, j) implies #[trigger] img.at(i, j) == if j
            < y + 1 && covers(m, rh as int, i, j) {
            ink(erasing, color, start.at(i, j))
        } else {
            start.at(i, j)
        } by {
            if j == y && i >= x && covers(m, rh as int, i, j) {
                assert(false);
            }
        }
        y = y + 1;
    }
    assert forall|i: int, j: int| img.in_bounds(i, j) implies #[trigger] img.at(i, j) == if covers(
        m,
        rh as int,
        i,
        j,
    ) {
        ink(erasing, color, start.at(i, j))
    } else {
        start.at(i, j)
    } by {
        if j >= y && covers(m, rh as int, i, j) {
            assert(false);
        }
    }
}

/// Radius `r` raised to `MIN_RADIUS` where it is smaller.
pub open spec fn clamp_radius(r: int) -> int {
    if r < MIN_RADIUS {
        MIN_RADIUS as int
    } else {
        r
    }
}

/// The style after `s` in the cycle `Curve`, `Line`, `Space`.
pub open spec fn next_interp(s: InterpStyle) -> InterpStyle {
    match s {
        InterpStyle::Curve => InterpStyle::Line,
        InterpStyle::Line => InterpStyle::Space,
        InterpStyle::Space => InterpStyle::Curve,
    }
}

impl Brush {
    /// A brush of the given radius and color, joining points by curves.
    pub fn new(radius_halves: u32, color: Rgba) -> (b: Brush)
        ensures
            b.radius_halves == radius_halves,
            b.color == color,
            b.interp == InterpStyle::Curve,
    {
        Brush { radius_halves, color, interp: InterpStyle::Curve }
    }

    /// Sets the radius, raised to `MIN_RADIUS`; reports whether it changed.
    pub fn set_radius(&mut self, radius_halves: u32) -> (changed: bool)
        ensures
            final(self).radius_halves == clamp_radius(radius_halves as int),
            final(self).color == old(self).color,
            final(self).interp == old(self).interp,
            changed == (final(self).radius_halves != old(self).radius_halves),
    {
        let r = if radius_halves < MIN_RADIUS {
            MIN_RADIUS
        } else {
            radius_halves
        };
        let changed = r != self.radius_halves;
        self.radius_halves = r;
        changed
    }

    /// Moves to the next joining style: `Curve`, then `Line`, then `Space`, then `Curve`.
    pub fn cycle_interp(&mut self)
        ensures
            final(self).interp == next_interp(old(self).interp),
            final(self).radius_halves == old(self).radius_halves,
            final(self).color == old(self).color,
    {
        self.interp = match self.interp {
            InterpStyle::Curve => InterpStyle::Line,
            InterpStyle::Line => InterpStyle::Space,
            InterpStyle::Space => InterpStyle::Curve,
        };
    }

    /// The marks that a stroke through `points` is drawn with, one per point.
    pub fn stroke_marks(&self, points: &Vec<(i64, i64)>) -> (ms: Vec<Mark>)
        requires
            points_in_limit(points@),
        ensures
            ms@ == stroke_marks_spec(self.interp, self.radius_halves as int, points@),
            forall|i: int| 0 <= i < ms@.len() ==> mark_ok(#[trigger] ms@[i]),
    {
        let mut ms: Vec<Mark> = Vec::new();
        let n = points.len();
        let mut i: usize = 0;
        while i < n
            invariant
                n == points@.len(),
                points_in_limit(points@),
                i <= n,
                ms@ =~= stroke_marks_spec(self.interp, self.radius_halves as int, points@).subrange(
                    0,
                    i as int,
                ),
                forall|j: int| 0 <= j < ms@.len() ==> mark_ok(#[trigger] ms@[j]),
            decreases n - i,
        {
            let (x, y) = points[i];
            let m = if self.interp != InterpStyle::Space && i >= 1 {
                let (px, py) = points[i - 1];
                if self.interp == InterpStyle::Curve && i >= 2 {
                    let (ppx, ppy) = points[i - 2];
                    Mark::Curve {
                        x0: ppx,
                        y0: ppy,
                        cx2: 4 * px - ppx - x,
                        cy2: 4 * py - ppy - y,
                        x1: x,
                        y1: y,
                    }
                } else {
                    Mark::Line { x0: px, y0: py, x1: x, y1: y }
                }
            } else if self.radius_halves < 2 {
                Mark::Dot { x, y }
            } else {
                Mark::Disc { x, y }
            };
            proof {
                assert(points_in_limit(points@));
                assert(in_limit(points@[i as int].0 as int));
                if i >= 1 {
                    assert(in_limit(points@[i - 1].0 as int));
                }
                if i >= 2 {
                    assert(in_limit(points@[i - 2].0 as int));
                }
            }
            ms.push(m);
            i = i + 1;
        }
        ms
    }

    /// Draws a stroke through `points` into `img`: each point's mark in turn, every
    /// covered pixel erased to transparent when `is_erasing`, otherwise laid over with
    /// the brush color.
    pub fn paint(&self, img: &mut Image, points: &Vec<(i64, i64)>, is_erasing: bool)
        requires
            old(img).wf(),
            old(img).spec_width() <= COORD_LIMIT,
            old(img).spec_height() <= COORD_LIMIT,
            points_in_limit(points@),
        ensures
            final(img).wf(),
            final(img).spec_width() == old(img).spec_width(),
            final(img).spec_height() == old(img).spec_height(),
            forall|i: int, j: int|
                final(img).in_bounds(i, j) ==> #[trigger] final(img).at(i, j) == apply_marks(
                    stroke_marks_spec(self.interp, self.radius_halves as int, points@),
                    self.radius_halves as int,
                    self.color,
                    is_erasing,
                    i,
                    j,
                    old(img).at(i, j),
                ),
    {
        let ghost start = *img;
        let ms = self.stroke_marks(points);
        let mut k: usize = 0;
        while k < ms.len()
            invariant
                img.wf(),
                img.spec_width() == start.spec_width(),
                img.spec_height() == start.spec_height(),
                start.spec_width() <= COORD_LIMIT,
                start.spec_height() <= COORD_LIMIT,
                k <= ms@.len(),
                forall|j: int| 0 <= j < ms@.len() ==> mark_ok(#[trigger] ms@[j]),
                forall|i: int, j: int|
                    img.in_bounds(i, j) ==> #[trigger] img.at(i, j) == apply_marks(
                        ms@.subrange(0, k as int),
                        self.radius_halves as int,
                        self.color,
                        is_erasing,
                        i,
                        j,
                        start.at(i, j),
                    ),
            decreases ms@.len() - k,
        {
            let ghost before = *img;
            draw_mark(img, ms[k], self.radius_halves, self.color, is_erasing);
            proof {
                assert forall|i: int, j: int| img.in_bounds(i, j) implies #[trigger] img.at(i, j)
                    == apply_marks(
                    ms@.subrange(0, k + 1),
                    self.radius_halves as int,
                    self.color,
                    is_erasing,
                    i,
                    j,
                    start.at(i, j),
                ) by {
                    assert(ms@.subrange(0, k + 1).drop_last() =~= ms@.subrange(0, k as int));
                    assert(before.at(i, j) == apply_marks(
                        ms@.subrange(0, k as int),
                        self.radius_halves as int,
                        self.color,
                        is_erasing,
                        i,
                        j,
                        start.at(i, j),
                    ));
                }
            }
            k = k + 1;
        }
        proof {
            assert(ms@.subrange(0, ms@.len() as int) =~= ms@);
        }
    }
}

/// With an opaque color and no erasing, a pixel that any of the marks covers ends up
/// exactly the brush color.
proof fn lemma_opaque_marks(ms: Seq<Mark>, rh: int, color: Rgba, px: int, py: int, c: Rgba, k: int)
    requires
        color.a == 255,
        0 <= k < ms.len(),
        covers(ms[k], rh, px, py),
    ensures
        apply_marks(ms, rh, color, false, px, py, c) == color,
    decreases ms.len(),
{
    let before = apply_marks(ms.drop_last(), rh, color, false, px, py, c);
    if covers(ms.last(), rh, px, py) {
        lemma_blend_opaque(color, before);
    } else {
        assert(k < ms.len() - 1);
        assert(ms.drop_last()[k] == ms[k]);
        lemma_opaque_marks(ms.drop_last(), rh, color, px, py, c, k);
    }
}

/// A curve stroke through (0, 0), (10, 0) and (20, 0) with a radius of two pixels and an
/// opaque color paints every pixel of row 0 from column 0 to column 20, whatever was
/// there: the run has no gaps.
pub proof fn lemma_curve_stroke_continuous(color: Rgba, x: int, c: Rgba)
    requires
        color.a == 255,
        0 <= x <= 20,
    ensures
        apply_marks(
            stroke_marks_spec(InterpStyle::Curve, 4, seq![(0i64, 0i64), (10i64, 0i64), (20i64, 0i64)]),
            4,
            color,
            false,
            x,
            0,
            c,
        ) == color,
{
    let pts = seq![(0i64, 0i64), (10i64, 0i64), (20i64, 0i64)];
    let ms = stroke_marks_spec(InterpStyle::Curve, 4, pts);
    let line = Mark::Line { x0: 0, y0: 0, x1: 10, y1: 0 };
    let curve = Mark::Curve { x0: 0, y0: 0, cx2: 20, cy2: 0, x1: 20, y1: 0 };
    assert(ms[1] == line);
    assert(ms[2] == curve);
    if x <= 10 {
        assert(covers(line, 4, x, 0));
        lemma_opaque_marks(ms, 4, color, x, 0, c, 1);
    } else {
        let k: int = if x == 11 {
            13
        } else if x == 12 {
            14
        } else if x == 13 {
            15
        } else if x == 14 {
            17
        } else if x == 15 {
            18
        } else if x == 16 {
            19
        } else if x == 17 {
            20
        } else if x == 18 {
            21
        } else if x == 19 {
            23
        } else {
            23
        };
        assert(curve_pt(0, 0, 0, k) == 0);
        assert(curve_pt(0, 0, 0, k + 1) == 0);
        assert(curve_pt(0, 20, 20, k) == (480 * k + 288) / 576) by (nonlinear_arith)
            requires
                0 <= k <= 23,
        ;
        assert(curve_pt(0, 20, 20, k + 1) == (480 * (k + 1) + 288) / 576) by (nonlinear_arith)
            requires
                0 <= k <= 23,
        ;
        assert(curve_piece_near(0, 0, 20, 0, 20, 0, 4, k, x, 0));
        assert(covers(curve, 4, x, 0));
        lemma_opaque_marks(ms, 4, color, x, 0, c, 2);
    }
}

} // verus!
