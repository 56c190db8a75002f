use vstd::prelude::*;

verus! {

/// Bound on the coordinates that the stroke rasterizer takes, and on the size of the
/// images it draws into: it keeps every intermediate product within 128 bits.
pub const COORD_LIMIT: i64 = 0x10_0000;

pub open spec fn in_limit(v: int) -> bool {
    -COORD_LIMIT <= v <= COORD_LIMIT
}

/// Whether pixel (`px`, `py`) lies within `rh / 2` (that is, `rh` half pixels) of the
/// segment from (`ax`, `ay`) to (`bx`, `by`).
pub open spec fn near_segment(ax: int, ay: int, bx: int, by: int, rh: int, px: int, py: int) -> bool {
    let dx = bx - ax;
    let dy = by - ay;
    let wx = px - ax;
    let wy = py - ay;
    let t = wx * dx + wy * dy;
    let len2 = dx * dx + dy * dy;
    if len2 == 0 || t <= 0 {
        4 * (wx * wx + wy * wy) <= rh * rh
    } else if t >= len2 {
        4 * ((px - bx) * (px - bx) + (py - by) * (py - by)) <= rh * rh
    } else {
        4 * ((wx * dy - wy * dx) * (wx * dy - wy * dx)) <= rh * rh * len2
    }
}

proof fn lemma_mul_bound(a: int, b: int, ba: int, bb: int)
    requires
        -ba <= a <= ba,
        -bb <= b <= bb,
    ensures
        -(ba * bb) <= a * b <= ba * bb,
{
    assert(-(ba * bb) <= a * b <= ba * bb) by (nonlinear_arith)
        requires
            -ba <= a <= ba,
            -bb <= b <= bb,
    ;
}

/// Computes `near_segment` for coordinates within four times `COORD_LIMIT`.
pub fn near_segment_exec(ax: i64, ay: i64, bx: i64, by: i64, rh: u32, px: i64, py: i64) -> (b: bool)
    requires
        -4 * COORD_LIMIT <= ax <= 4 * COORD_LIMIT,
        -4 * COORD_LIMIT <= ay <= 4 * COORD_LIMIT,
        -4 * COORD_LIMIT <= bx <= 4 * COORD_LIMIT,
        -4 * COORD_LIMIT <= by <= 4 * COORD_LIMIT,
        -4 * COORD_LIMIT <= px <= 4 * COORD_LIMIT,
        -4 * COORD_LIMIT <= py <= 4 * COORD_LIMIT,
    ensures
        b == near_segment(ax as int, ay as int, bx as int, by as int, rh as int, px as int, py as int),
{
    let lim: i128 = 0x80_0000;
    let dx = bx as i128 - ax as i128;
    let dy = by as i128 - ay as i128;
    let wx = px as i128 - ax as i128;
    let wy = py as i128 - ay as i128;
    let ex = px as i128 - bx as i128;
    let ey = py as i128 - by as i128;
    let r = rh as i128;
    proof {
        lemma_mul_bound(wx as int, dx as int, lim as int, lim as int);
        lemma_mul_bound(wy as int, dy as int, lim as int, lim as int);
        lemma_mul_bound(dx as int, dx as int, lim as int, lim as int);
        lemma_mul_bound(dy as int, dy as int, lim as int, lim as int);
        lemma_mul_bound(wx as int, wx as int, lim as int, lim as int);
        lemma_mul_bound(wy as int, wy as int, lim as int, lim as int);
        lemma_mul_bound(ex as int, ex as int, lim as int, lim as int);
        lemma_mul_bound(ey as int, ey as int, lim as int, lim as int);
        lemma_mul_bound(wx as int, dy as int, lim as int, lim as int);
        lemma_mul_bound(wy as int, dx as int, lim as int, lim as int);
        lemma_mul_bound(r as int, r as int, 0x1_0000_0000, 0x1_0000_0000);
    }
    let t = wx * dx + wy * dy;
    let len2 = dx * dx + dy * dy;
    let rr = r * r;
    if len2 == 0 || t <= 0 {
        4 * (wx * wx + wy * wy) <= rr
    } else if t >= len2 {
        4 * (ex * ex + ey * ey) <= rr
    } else {
        let cr = wx * dy - wy * dx;
        proof {
            assert(-0x8000_0000_0000 <= cr <= 0x8000_0000_0000);
            assert(0 <= 4 * (cr * cr) <= 4 * 0x8000_0000_0000 * 0x8000_0000_0000)
                by (nonlinear_arith)
                requires
                    -0x8000_0000_0000 <= cr <= 0x8000_0000_0000,
            ;
            assert(0 <= rr * len2 <= 0x1_0000_0000 * 0x1_0000_0000 * (2 * lim * lim))
                by (nonlinear_arith)
                requires
                    0 <= rr <= 0x1_0000_0000 * 0x1_0000_0000,
                    0 <= len2 <= 2 * lim * lim,
            ;
        }
        4 * (cr * cr) <= rr * len2
    }
}

} // verus!
