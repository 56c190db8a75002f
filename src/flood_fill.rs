use vstd::prelude::*;
use crate::color::Rgba;
use crate::image::Image;

verus! {

/// Whether (`x1`, `y1`) and (`x2`, `y2`) are 4-neighbours.
pub open spec fn adjacent(x1: int, y1: int, x2: int, y2: int) -> bool {
    (x1 == x2 && (y1 - y2 == 1 || y2 - y1 == 1)) || (y1 == y2 && (x1 - x2 == 1 || x2 - x1 == 1))
}

/// A non-empty walk over in-bounds pixels of color `c`, each a 4-neighbour of the next.
pub open spec fn is_path(img: Image, c: Rgba, path: Seq<(int, int)>) -> bool {
    &&& path.len() > 0
    &&& forall|i: int|
        0 <= i < path.len() ==> img.in_bounds(#[trigger] path[i].0, path[i].1) && img.at(
            path[i].0,
            path[i].1,
        ) == c
    &&& forall|i: int|
        0 <= i < path.len() - 1 ==> adjacent(
            #[trigger] path[i].0,
            path[i].1,
            path[i + 1].0,
            path[i + 1].1,
        )
}

/// (`x`, `y`) lies in the 4-connected region of the seed's color that holds the seed.
pub open spec fn connected(img: Image, sx: int, sy: int, x: int, y: int) -> bool {
    exists|path: Seq<(int, int)>|
        #[trigger] is_path(img, img.at(sx, sy), path) && path[0] == (sx, sy) && path.last() == (
            x,
            y,
        )
}

/// How many entries of `s` equal `c`.
pub open spec fn count_eq(s: Seq<Rgba>, c: Rgba) -> nat
    decreases s.len(),
{
    if s.len() == 0 {
        0
    } else {
        count_eq(s.drop_last(), c) + if s.last() == c {
            1nat
        } else {
            0nat
        }
    }
}

proof fn lemma_count_update(s: Seq<Rgba>, c: Rgba, i: int, v: Rgba)
    requires
        0 <= i < s.len(),
        s[i] == c,
        v != c,
    ensures
        count_eq(s.update(i, v), c) + 1 == count_eq(s, c),
    decreases s.len(),
{
    let t = s.update(i, v);
    if i == s.len() - 1 {
        assert(t.drop_last() =~= s.drop_last());
    } else {
        assert(t.drop_last() =~= s.drop_last().update(i, v));
        lemma_count_update(s.drop_last(), c, i, v);
    }
}

proof fn lemma_connected_seed(img: Image, sx: int, sy: int)
    requires
        img.in_bounds(sx, sy),
    ensures
        connected(img, sx, sy, sx, sy),
{
    let path = seq![(sx, sy)];
    assert(is_path(img, img.at(sx, sy), path));
}

proof fn lemma_connected_step(img: Image, sx: int, sy: int, x: int, y: int, nx: int, ny: int)
    requires
        connected(img, sx, sy, x, y),
        adjacent(x, y, nx, ny),
        img.in_bounds(nx, ny),
        img.at(nx, ny) == img.at(sx, sy),
    ensures
        connected(img, sx, sy, nx, ny),
{
    let c = img.at(sx, sy);
    let path = choose|path: Seq<(int, int)>|
        #[trigger] is_path(img, c, path) && path[0] == (sx, sy) && path.last() == (x, y);
    let extended = path.push((nx, ny));
    assert forall|i: int| 0 <= i < extended.len() - 1 implies adjacent(
        #[trigger] extended[i].0,
        extended[i].1,
        extended[i + 1].0,
        extended[i + 1].1,
    ) by {
        if i < path.len() - 1 {
            assert(adjacent(path[i].0, path[i].1, path[i + 1].0, path[i + 1].1));
        }
    }
    assert forall|i: int| 0 <= i < extended.len() implies img.in_bounds(
        #[trigger] extended[i].0,
        extended[i].1,
    ) && img.at(extended[i].0, extended[i].1) == c by {
        if i < path.len() {
            assert(img.in_bounds(path[i].0, path[i].1));
        }
    }
    assert(is_path(img, c, extended));
    assert(extended[0] == (sx, sy));
}

proof fn lemma_connected_color(img: Image, sx: int, sy: int, x: int, y: int)
    requires
        connected(img, sx, sy, x, y),
    ensures
        img.in_bounds(x, y),
        img.at(x, y) == img.at(sx, sy),
{
    let c = img.at(sx, sy);
    let path = choose|path: Seq<(int, int)>|
        #[trigger] is_path(img, c, path) && path[0] == (sx, sy) && path.last() == (x, y);
    let n = path.len() - 1;
    assert(img.in_bounds(path[n].0, path[n].1));
}

/// A work-list entry (`start`, `end`, `row`, `dy`): the pixels `start..=end` of row `row`
/// may still need filling; they were reached from row `row - dy`, with `dy` 1 or -1.
pub type Segment = (i64, i64, i64, i64);

pub open spec fn seg_holds(s: Segment, x: int, y: int) -> bool {
    s.2 == y && s.0 <= x <= s.1
}

/// Some segment of the work list holds (`x`, `y`).
pub open spec fn covered(stack: Seq<Segment>, x: int, y: int) -> bool {
    exists|k: int| 0 <= k < stack.len() && #[trigger] seg_holds(stack[k], x, y)
}

/// A pixel that still matches the region's color is either queued, or lies in the
/// part `lo..=hi` of row `y` that is being scanned.
pub open spec fn pending_ok(
    img: Image,
    target: Rgba,
    stack: Seq<Segment>,
    y: int,
    lo: int,
    hi: int,
    nx: int,
    ny: int,
) -> bool {
    !img.in_bounds(nx, ny) || img.at(nx, ny) != target || covered(stack, nx, ny) || (ny == y && lo
        <= nx <= hi)
}

/// The pixel changed since the fill began.
pub open spec fn painted(img: Image, orig: Image, x: int, y: int) -> bool {
    img.in_bounds(x, y) && img.at(x, y) != orig.at(x, y)
}

/// No painted pixel has a neighbour of the region's color that nothing will visit.
pub open spec fn closed_except(
    img: Image,
    orig: Image,
    target: Rgba,
    stack: Seq<Segment>,
    y: int,
    lo: int,
    hi: int,
) -> bool {
    forall|px: int, py: int|
        #[trigger] painted(img, orig, px, py) ==> {
            &&& pending_ok(img, target, stack, y, lo, hi, px - 1, py)
            &&& pending_ok(img, target, stack, y, lo, hi, px + 1, py)
            &&& pending_ok(img, target, stack, y, lo, hi, px, py - 1)
            &&& pending_ok(img, target, stack, y, lo, hi, px, py + 1)
        }
}

/// The row that segment `s` was reached from is taken care of over the segment's span.
pub open spec fn parent_ok(
    img: Image,
    target: Rgba,
    stack: Seq<Segment>,
    y: int,
    lo: int,
    hi: int,
    s: Segment,
) -> bool {
    forall|x: int|
        s.0 <= x <= s.1 ==> #[trigger] pending_ok(img, target, stack, y, lo, hi, x, s.2 - s.3)
}

pub open spec fn parents_ok(
    img: Image,
    target: Rgba,
    stack: Seq<Segment>,
    y: int,
    lo: int,
    hi: int,
) -> bool {
    forall|k: int| 0 <= k < stack.len() ==> parent_ok(img, target, stack, y, lo, hi, #[trigger] stack[k])
}

/// Every change so far paints a pixel of the seed's region with `c`.
pub open spec fn sound(img: Image, orig: Image, sx: int, sy: int, c: Rgba) -> bool {
    &&& img.wf()
    &&& img.spec_width() == orig.spec_width()
    &&& img.spec_height() == orig.spec_height()
    &&& forall|x: int, y: int|
        img.in_bounds(x, y) ==> #[trigger] img.at(x, y) == orig.at(x, y) || (img.at(x, y) == c
            && connected(orig, sx, sy, x, y))
}

/// The segment lies within one pixel of the image, has a direction, and holds only
/// region pixels of its color.
pub open spec fn seg_ok(orig: Image, sx: int, sy: int, s: Segment) -> bool {
    &&& -1 <= s.0
    &&& s.1 <= orig.spec_width()
    &&& -1 <= s.2 <= orig.spec_height()
    &&& (s.3 == 1 || s.3 == -1)
    &&& forall|x: int|
        s.0 <= x <= s.1 && orig.in_bounds(x, s.2 as int) && #[trigger] orig.at(x, s.2 as int)
            == orig.at(sx, sy) ==> connected(orig, sx, sy, x, s.2 as int)
}

pub open spec fn stack_ok(orig: Image, sx: int, sy: int, stack: Seq<Segment>) -> bool {
    forall|k: int| 0 <= k < stack.len() ==> seg_ok(orig, sx, sy, #[trigger] stack[k])
}

proof fn lemma_empty_range(
    img: Image,
    orig: Image,
    target: Rgba,
    stack: Seq<Segment>,
    y: int,
    lo: int,
    hi: int,
)
    requires
        lo > hi,
        closed_except(img, orig, target, stack, y, lo, hi),
        parents_ok(img, target, stack, y, lo, hi),
    ensures
        closed_except(img, orig, target, stack, 0, 1, 0),
        parents_ok(img, target, stack, 0, 1, 0),
{
    assert forall|px: int, py: int| #[trigger] painted(img, orig, px, py) implies {
        &&& pending_ok(img, target, stack, 0, 1, 0, px - 1, py)
        &&& pending_ok(img, target, stack, 0, 1, 0, px + 1, py)
        &&& pending_ok(img, target, stack, 0, 1, 0, px, py - 1)
        &&& pending_ok(img, target, stack, 0, 1, 0, px, py + 1)
    } by {}
    assert forall|k: int| 0 <= k < stack.len() implies parent_ok(
        img,
        target,
        stack,
        0,
        1,
        0,
        #[trigger] stack[k],
    ) by {
        let s = stack[k];
        assert forall|x: int| s.0 <= x <= s.1 implies #[trigger] pending_ok(
            img,
            target,
            stack,
            0,
            1,
            0,
            x,
            s.2 - s.3,
        ) by {
            assert(pending_ok(img, target, stack, y, lo, hi, x, s.2 - s.3));
        }
    }
}

proof fn lemma_pending_after_pop(
    img: Image,
    target: Rgba,
    stack: Seq<Segment>,
    nx: int,
    ny: int,
)
    requires
        stack.len() > 0,
        pending_ok(img, target, stack, 0, 1, 0, nx, ny),
    ensures
        pending_ok(
            img,
            target,
            stack.subrange(0, stack.len() - 1),
            stack.last().2 as int,
            stack.last().0 as int,
            stack.last().1 as int,
            nx,
            ny,
        ),
{
    let rest = stack.subrange(0, stack.len() - 1);
    if img.in_bounds(nx, ny) && img.at(nx, ny) == target {
        let k = choose|k: int| 0 <= k < stack.len() && #[trigger] seg_holds(stack[k], nx, ny);
        if k < stack.len() - 1 {
            assert(seg_holds(rest[k], nx, ny));
        }
    }
}

proof fn lemma_after_pop(img: Image, orig: Image, target: Rgba, stack: Seq<Segment>)
    requires
        stack.len() > 0,
        closed_except(img, orig, target, stack, 0, 1, 0),
        parents_ok(img, target, stack, 0, 1, 0),
    ensures
        ({
            let rest = stack.subrange(0, stack.len() - 1);
            let s = stack.last();
            &&& closed_except(img, orig, target, rest, s.2 as int, s.0 as int, s.1 as int)
            &&& parents_ok(img, target, rest, s.2 as int, s.0 as int, s.1 as int)
            &&& parent_ok(img, target, rest, s.2 as int, s.0 as int, s.1 as int, s)
        }),
{
    let rest = stack.subrange(0, stack.len() - 1);
    let s = stack.last();
    assert forall|px: int, py: int| #[trigger] painted(img, orig, px, py) implies {
        &&& pending_ok(img, target, rest, s.2 as int, s.0 as int, s.1 as int, px - 1, py)
        &&& pending_ok(img, target, rest, s.2 as int, s.0 as int, s.1 as int, px + 1, py)
        &&& pending_ok(img, target, rest, s.2 as int, s.0 as int, s.1 as int, px, py - 1)
        &&& pending_ok(img, target, rest, s.2 as int, s.0 as int, s.1 as int, px, py + 1)
    } by {
        lemma_pending_after_pop(img, target, stack, px - 1, py);
        lemma_pending_after_pop(img, target, stack, px + 1, py);
        lemma_pending_after_pop(img, target, stack, px, py - 1);
        lemma_pending_after_pop(img, target, stack, px, py + 1);
    }
    assert forall|k: int| 0 <= k < stack.len() implies parent_ok(
        img,
        target,
        rest,
        s.2 as int,
        s.0 as int,
        s.1 as int,
        #[trigger] stack[k],
    ) by {
        let t = stack[k];
        assert forall|x: int| t.0 <= x <= t.1 implies #[trigger] pending_ok(
            img,
            target,
            rest,
            s.2 as int,
            s.0 as int,
            s.1 as int,
            x,
            t.2 - t.3,
        ) by {
            assert(parent_ok(img, target, stack, 0, 1, 0, stack[k]));
            lemma_pending_after_pop(img, target, stack, x, t.2 - t.3);
        }
    }
    assert forall|k: int| 0 <= k < rest.len() implies parent_ok(
        img,
        target,
        rest,
        s.2 as int,
        s.0 as int,
        s.1 as int,
        #[trigger] rest[k],
    ) by {
        assert(rest[k] == stack[k]);
    }
    assert(s == stack[stack.len() - 1]);
}

/// Paints the pixels `l..=r` of row `y`, all of color `target`, with `c`.
fn paint_span(img: &mut Image, l: i64, r: i64, y: i64, c: Rgba, Ghost(target): Ghost<Rgba>)
    requires
        old(img).wf(),
        0 <= l <= r < old(img).spec_width(),
        0 <= y < old(img).spec_height(),
        c != target,
        forall|j: int| l <= j <= r ==> #[trigger] old(img).at(j, y as int) == target,
    ensures
        final(img).wf(),
        final(img).spec_width() == old(img).spec_width(),
        final(img).spec_height() == old(img).spec_height(),
        forall|i: int, j: int|
            final(img).in_bounds(i, j) ==> #[trigger] final(img).at(i, j) == if j == y && l <= i
                <= r {
                c
            } else {
                old(img).at(i, j)
            },
        count_eq(final(img).view_pixels(), target) + (r - l + 1) == count_eq(
            old(img).view_pixels(),
            target,
        ),
{
    let ghost start = *img;
    proof {
        start.lemma_dims();
    }
    let mut k: i64 = l;
    while k <= r
        invariant
            l <= k <= r + 1,
            img.wf(),
            img.spec_width() == start.spec_width(),
            img.spec_height() == start.spec_height(),
            0 <= l <= r < start.spec_width() <= u32::MAX,
            0 <= y < start.spec_height(),
            c != target,
            forall|j: int| l <= j <= r ==> #[trigger] start.at(j, y as int) == target,
            forall|i: int, j: int|
                img.in_bounds(i, j) ==> #[trigger] img.at(i, j) == if j == y && l <= i < k {
                    c
                } else {
                    start.at(i, j)
                },
            count_eq(img.view_pixels(), target) + (k - l) == count_eq(start.view_pixels(), target),
        decreases r + 1 - k,
    {
        proof {
            img.lemma_index(k as int, y as int);
            assert(img.at(k as int, y as int) == target);
            lemma_count_update(
                img.view_pixels(),
                target,
                img.index_of(k as int, y as int),
                c,
            );
        }
        img.set_pixel(k, y, c);
        k = k + 1;
    }
}

/// Whether (`x`, `y`) lies in the image and has color `target`.
fn is_inside(img: &Image, x: i64, y: i64, target: Rgba) -> (b: bool)
    requires
        img.wf(),
    ensures
        b == (img.in_bounds(x as int, y as int) && img.at(x as int, y as int) == target),
{
    match img.get_color(x, y) {
        Some(p) => p == target,
        None => false,
    }
}

/// The image after `l..=r` of row `y` was painted with `c`.
pub open spec fn span_painted(img1: Image, img2: Image, l: int, r: int, y: int, c: Rgba) -> bool {
    &&& img2.spec_width() == img1.spec_width()
    &&& img2.spec_height() == img1.spec_height()
    &&& forall|i: int, j: int|
        img2.in_bounds(i, j) ==> #[trigger] img2.at(i, j) == if j == y && l <= i <= r {
            c
        } else {
            img1.at(i, j)
        }
}

proof fn lemma_pending_after_span(
    img1: Image,
    img2: Image,
    target: Rgba,
    c: Rgba,
    stack1: Seq<Segment>,
    stack2: Seq<Segment>,
    y: int,
    l: int,
    r: int,
    cx: int,
    x2: int,
    nx: int,
    ny: int,
)
    requires
        span_painted(img1, img2, l, r, y, c),
        c != target,
        l <= cx <= r,
        stack2.len() >= stack1.len(),
        forall|k: int| 0 <= k < stack1.len() ==> stack2[k] == stack1[k],
        pending_ok(img1, target, stack1, y, cx, x2, nx, ny),
    ensures
        pending_ok(img2, target, stack2, y, r + 1, x2, nx, ny),
{
    if img2.in_bounds(nx, ny) && img2.at(nx, ny) == target {
        assert(img1.at(nx, ny) == target);
        if covered(stack1, nx, ny) {
            let k = choose|k: int| 0 <= k < stack1.len() && #[trigger] seg_holds(stack1[k], nx, ny);
            assert(seg_holds(stack2[k], nx, ny));
        }
    }
}

/// After the run `l..=r` of row `y` was painted while scanning segment `x1..=x2` of
/// that row (reached from row `y - dy`), and the rows beside it were queued as the
/// scanline rule asks, no painted pixel has an unvisited neighbour of the region's color.
proof fn lemma_closed_after_span(
    img1: Image,
    img2: Image,
    orig: Image,
    target: Rgba,
    c: Rgba,
    stack1: Seq<Segment>,
    stack2: Seq<Segment>,
    y: int,
    dy: int,
    l: int,
    r: int,
    cx: int,
    x1: int,
    x2: int,
)
    requires
        span_painted(img1, img2, l, r, y, c),
        c != target,
        l <= cx <= r,
        dy == 1 || dy == -1,
        stack2.len() >= stack1.len(),
        forall|k: int| 0 <= k < stack1.len() ==> stack2[k] == stack1[k],
        closed_except(img1, orig, target, stack1, y, cx, x2),
        forall|x: int| l <= x <= r ==> #[trigger] covered(stack2, x, y + dy),
        forall|x: int| l <= x <= r && (x < x1 || x > x2) ==> #[trigger] covered(stack2, x, y - dy),
        forall|x: int|
            l <= x <= r && x1 <= x <= x2 ==> #[trigger] pending_ok(
                img1,
                target,
                stack1,
                y,
                cx,
                x2,
                x,
                y - dy,
            ),
        !(img1.in_bounds(l - 1, y) && img1.at(l - 1, y) == target),
        !(img1.in_bounds(r + 1, y) && img1.at(r + 1, y) == target),
    ensures
        closed_except(img2, orig, target, stack2, y, r + 1, x2),
{
    assert forall|px: int, py: int| #[trigger] painted(img2, orig, px, py) implies {
        &&& pending_ok(img2, target, stack2, y, r + 1, x2, px - 1, py)
        &&& pending_ok(img2, target, stack2, y, r + 1, x2, px + 1, py)
        &&& pending_ok(img2, target, stack2, y, r + 1, x2, px, py - 1)
        &&& pending_ok(img2, target, stack2, y, r + 1, x2, px, py + 1)
    } by {
        if py == y && l <= px <= r {
            if img2.in_bounds(px - 1, py) && px - 1 < l {
                assert(img2.at(px - 1, py) == img1.at(px - 1, py));
            }
            if img2.in_bounds(px + 1, py) && px + 1 > r {
                assert(img2.at(px + 1, py) == img1.at(px + 1, py));
            }
            assert(covered(stack2, px, y + dy));
            if px < x1 || px > x2 {
                assert(covered(stack2, px, y - dy));
            } else {
                assert(pending_ok(img1, target, stack1, y, cx, x2, px, y - dy));
                lemma_pending_after_span(img1, img2, target, c, stack1, stack2, y, l, r, cx, x2, px, y - dy);
            }
        } else {
            assert(img2.at(px, py) == img1.at(px, py));
            assert(painted(img1, orig, px, py));
            lemma_pending_after_span(img1, img2, target, c, stack1, stack2, y, l, r, cx, x2, px - 1, py);
            lemma_pending_after_span(img1, img2, target, c, stack1, stack2, y, l, r, cx, x2, px + 1, py);
            lemma_pending_after_span(img1, img2, target, c, stack1, stack2, y, l, r, cx, x2, px, py - 1);
            lemma_pending_after_span(img1, img2, target, c, stack1, stack2, y, l, r, cx, x2, px, py + 1);
        }
    }
}

/// Queued segments reached from row `y` over the run `l..=r`, which is painted, and older
/// segments whose parents were taken care of, still have their parents taken care of.
proof fn lemma_parents_after_span(
    img1: Image,
    img2: Image,
    target: Rgba,
    c: Rgba,
    stack1: Seq<Segment>,
    stack2: Seq<Segment>,
    y: int,
    l: int,
    r: int,
    cx: int,
    x2: int,
)
    requires
        span_painted(img1, img2, l, r, y, c),
        c != target,
        l <= cx <= r,
        stack2.len() >= stack1.len(),
        forall|k: int| 0 <= k < stack1.len() ==> stack2[k] == stack1[k],
        parents_ok(img1, target, stack1, y, cx, x2),
        forall|k: int|
            stack1.len() <= k < stack2.len() ==> {
                &&& l <= (#[trigger] stack2[k]).0
                &&& stack2[k].1 <= r
                &&& stack2[k].2 - stack2[k].3 == y
            },
    ensures
        parents_ok(img2, target, stack2, y, r + 1, x2),
{
    assert forall|k: int| 0 <= k < stack2.len() implies parent_ok(
        img2,
        target,
        stack2,
        y,
        r + 1,
        x2,
        #[trigger] stack2[k],
    ) by {
        let s = stack2[k];
        assert forall|x: int| s.0 <= x <= s.1 implies #[trigger] pending_ok(
            img2,
            target,
            stack2,
            y,
            r + 1,
            x2,
            x,
            s.2 - s.3,
        ) by {
            if k < stack1.len() {
                assert(stack1[k] == s);
                assert(parent_ok(img1, target, stack1, y, cx, x2, stack1[k]));
                assert(pending_ok(img1, target, stack1, y, cx, x2, x, s.2 - s.3));
                lemma_pending_after_span(img1, img2, target, c, stack1, stack2, y, l, r, cx, x2, x, s.2 - s.3);
            } else {
                if img2.in_bounds(x, s.2 - s.3) {
                    assert(img2.at(x, y) == c);
                }
            }
        }
    }
}

/// Scans one work-list segment (`x1`, `x2`, `y`, `dy`). Each run of `target` pixels met on
/// it is widened to its full extent in the row and painted with `c`; the run's row on
/// the far side (`y + dy`) is queued, and on the near side (`y - dy`) only the parts of
/// the run that stick out beyond `x1..=x2`.
#[verifier::loop_isolation(false)]
fn fill_segment(
    img: &mut Image,
    stack: &mut Vec<Segment>,
    seg: Segment,
    target: Rgba,
    c: Rgba,
    Ghost(orig): Ghost<Image>,
    Ghost(sx): Ghost<int>,
    Ghost(sy): Ghost<int>,
)
    requires
        sound(*old(img), orig, sx, sy, c),
        orig.in_bounds(sx, sy),
        target == orig.at(sx, sy),
        target != c,
        stack_ok(orig, sx, sy, old(stack)@),
        seg_ok(orig, sx, sy, seg),
        closed_except(*old(img), orig, target, old(stack)@, seg.2 as int, seg.0 as int, seg.1 as int),
        parents_ok(*old(img), target, old(stack)@, seg.2 as int, seg.0 as int, seg.1 as int),
        parent_ok(*old(img), target, old(stack)@, seg.2 as int, seg.0 as int, seg.1 as int, seg),
        old(img).at(sx, sy) != target || covered(old(stack)@, sx, sy) || seg_holds(seg, sx, sy),
    ensures
        sound(*final(img), orig, sx, sy, c),
        stack_ok(orig, sx, sy, final(stack)@),
        closed_except(*final(img), orig, target, final(stack)@, 0, 1, 0),
        parents_ok(*final(img), target, final(stack)@, 0, 1, 0),
        final(img).at(sx, sy) != target || covered(final(stack)@, sx, sy),
        4 * count_eq(final(img).view_pixels(), target) + final(stack)@.len() <= 4 * count_eq(
            old(img).view_pixels(),
            target,
        ) + old(stack)@.len(),
{
    let (x1, x2, y, dy) = seg;
    let ghost m0 = 4 * count_eq(img.view_pixels(), target) + stack@.len();
    proof {
        orig.lemma_dims();
    }
    let mut cx: i64 = x1;
    while cx <= x2
        invariant
            sound(*img, orig, sx, sy, c),
            stack_ok(orig, sx, sy, stack@),
            x1 <= cx,
            closed_except(*img, orig, target, stack@, y as int, cx as int, x2 as int),
            parents_ok(*img, target, stack@, y as int, cx as int, x2 as int),
            parent_ok(*img, target, stack@, y as int, cx as int, x2 as int, seg),
            img.at(sx, sy) != target || covered(stack@, sx, sy) || (sy == y && cx <= sx <= x2),
            4 * count_eq(img.view_pixels(), target) + stack@.len() <= m0,
        decreases if cx <= x2 + 1 {
            x2 + 1 - cx
        } else {
            0
        },
    {
        if is_inside(img, cx, y, target) {
            proof {
                assert(img.at(cx as int, y as int) == orig.at(cx as int, y as int));
                assert(connected(orig, sx, sy, cx as int, y as int));
            }
            let mut l: i64 = cx;
            while is_inside(img, l - 1, y, target)
                invariant
                    0 <= l <= cx,
                    forall|j: int|
                        l <= j <= cx ==> #[trigger] img.at(j, y as int) == target && connected(
                            orig,
                            sx,
                            sy,
                            j,
                            y as int,
                        ),
                decreases l,
            {
                proof {
                    assert(img.at(l as int, y as int) == target);
                    lemma_connected_step(orig, sx, sy, l as int, y as int, l - 1, y as int);
                }
                l = l - 1;
            }
            let mut r: i64 = cx;
            while is_inside(img, r + 1, y, target)
                invariant
                    cx <= r < orig.spec_width(),
                    forall|j: int|
                        cx <= j <= r ==> #[trigger] img.at(j, y as int) == target && connected(
                            orig,
                            sx,
                            sy,
                            j,
                            y as int,
                        ),
                decreases orig.spec_width() - r,
            {
                proof {
                    assert(img.at(r as int, y as int) == target);
                    lemma_connected_step(orig, sx, sy, r as int, y as int, r + 1, y as int);
                }
                r = r + 1;
            }
            let ghost img1 = *img;
            let ghost stack1 = stack@;
            assert(forall|j: int| l <= j <= r ==> #[trigger] img.at(j, y as int) == target);
            paint_span(img, l, r, y, c, Ghost(target));
            let ghost k_far = stack@.len() as int;
            stack.push((l, r, y + dy, dy));
            let ghost k_left = stack@.len() as int;
            if l < x1 {
                stack.push((l, x1 - 1, y - dy, -dy));
            }
            let ghost k_right = stack@.len() as int;
            if r > x2 {
                stack.push((x2 + 1, r, y - dy, -dy));
            }
            proof {
                assert(span_painted(img1, *img, l as int, r as int, y as int, c));
                assert forall|k: int| 0 <= k < stack1.len() implies stack@[k] == stack1[k] by {}
                assert forall|x: int| l <= x <= r implies #[trigger] covered(stack@, x, y + dy) by {
                    assert(seg_holds(stack@[k_far], x, y + dy));
                }
                assert forall|x: int| l <= x <= r && (x < x1 || x > x2) implies #[trigger] covered(
                    stack@,
                    x,
                    y - dy,
                ) by {
                    if x < x1 {
                        assert(seg_holds(stack@[k_left], x, y - dy));
                    } else {
                        assert(seg_holds(stack@[k_right], x, y - dy));
                    }
                }
                assert forall|x: int| l <= x <= r && x1 <= x <= x2 implies #[trigger] pending_ok(
                    img1,
                    target,
                    stack1,
                    y as int,
                    cx as int,
                    x2 as int,
                    x,
                    y - dy,
                ) by {}
                lemma_closed_after_span(
                    img1,
                    *img,
                    orig,
                    target,
                    c,
                    stack1,
                    stack@,
                    y as int,
                    dy as int,
                    l as int,
                    r as int,
                    cx as int,
                    x1 as int,
                    x2 as int,
                );
                assert forall|k: int| stack1.len() <= k < stack@.len() implies {
                    &&& l <= (#[trigger] stack@[k]).0
                    &&& stack@[k].1 <= r
                    &&& stack@[k].2 - stack@[k].3 == y
                } by {}
                lemma_parents_after_span(
                    img1,
                    *img,
                    target,
                    c,
                    stack1,
                    stack@,
                    y as int,
                    l as int,
                    r as int,
                    cx as int,
                    x2 as int,
                );
                assert forall|x: int| seg.0 <= x <= seg.1 implies #[trigger] pending_ok(
                    *img,
                    target,
                    stack@,
                    y as int,
                    r + 1,
                    x2 as int,
                    x,
                    seg.2 - seg.3,
                ) by {
                    assert(pending_ok(img1, target, stack1, y as int, cx as int, x2 as int, x, seg.2 - seg.3));
                    lemma_pending_after_span(
                        img1,
                        *img,
                        target,
                        c,
                        stack1,
                        stack@,
                        y as int,
                        l as int,
                        r as int,
                        cx as int,
                        x2 as int,
                        x,
                        seg.2 - seg.3,
                    );
                }
                assert forall|i: int, j: int| img.in_bounds(i, j) implies #[trigger] img.at(i, j)
                    == orig.at(i, j) || (img.at(i, j) == c && connected(orig, sx, sy, i, j)) by {
                    if j == y && l <= i <= r {
                        assert(img1.at(i, y as int) == target);
                    } else {
                        assert(img1.at(i, j) == img.at(i, j));
                    }
                }
                assert forall|k: int| 0 <= k < stack@.len() implies seg_ok(
                    orig,
                    sx,
                    sy,
                    #[trigger] stack@[k],
                ) by {
                    if k < stack1.len() {
                        assert(stack@[k] == stack1[k]);
                    } else {
                        let sg = stack@[k];
                        assert forall|x: int|
                            sg.0 <= x <= sg.1 && orig.in_bounds(x, sg.2 as int) && #[trigger] orig.at(
                                x,
                                sg.2 as int,
                            ) == orig.at(sx, sy) implies connected(orig, sx, sy, x, sg.2 as int) by {
                            assert(img1.at(x, y as int) == target);
                            lemma_connected_step(orig, sx, sy, x, y as int, x, sg.2 as int);
                        }
                    }
                }
                if img.at(sx, sy) == target {
                    if sy == y as int && l <= sx <= r {
                    } else {
                        assert(img.at(sx, sy) == img1.at(sx, sy));
                        if covered(stack1, sx, sy) {
                            let k = choose|k: int|
                                0 <= k < stack1.len() && #[trigger] seg_holds(stack1[k], sx, sy);
                            assert(seg_holds(stack@[k], sx, sy));
                        }
                    }
                }
            }
            cx = r + 1;
        } else {
            proof {
                assert forall|k: int| 0 <= k < stack@.len() implies parent_ok(
                    *img,
                    target,
                    stack@,
                    y as int,
                    cx + 1,
                    x2 as int,
                    #[trigger] stack@[k],
                ) by {
                    let s = stack@[k];
                    assert forall|x: int| s.0 <= x <= s.1 implies #[trigger] pending_ok(
                        *img,
                        target,
                        stack@,
                        y as int,
                        cx + 1,
                        x2 as int,
                        x,
                        s.2 - s.3,
                    ) by {
                        assert(pending_ok(*img, target, stack@, y as int, cx as int, x2 as int, x, s.2 - s.3));
                    }
                }
                assert forall|x: int| seg.0 <= x <= seg.1 implies #[trigger] pending_ok(
                    *img,
                    target,
                    stack@,
                    y as int,
                    cx + 1,
                    x2 as int,
                    x,
                    seg.2 - seg.3,
                ) by {
                    assert(pending_ok(*img, target, stack@, y as int, cx as int, x2 as int, x, seg.2 - seg.3));
                }
            }
            cx = cx + 1;
        }
    }
    proof {
        lemma_empty_range(*img, orig, target, stack@, y as int, cx as int, x2 as int);
    }
}

proof fn lemma_path_reached(
    img: Image,
    orig: Image,
    target: Rgba,
    sx: int,
    sy: int,
    path: Seq<(int, int)>,
    i: int,
)
    requires
        is_path(orig, target, path),
        path[0] == (sx, sy),
        0 <= i < path.len(),
        img.spec_width() == orig.spec_width(),
        img.spec_height() == orig.spec_height(),
        img.at(sx, sy) != target,
        closed_except(img, orig, target, Seq::<Segment>::empty(), 0, 1, 0),
    ensures
        img.at(path[i].0, path[i].1) != target,
    decreases i,
{
    if i > 0 {
        lemma_path_reached(img, orig, target, sx, sy, path, i - 1);
        let (px, py) = path[i - 1];
        assert(orig.in_bounds(path[i - 1].0, path[i - 1].1));
        assert(orig.at(px, py) == target);
        assert(painted(img, orig, px, py));
        assert(adjacent(path[i - 1].0, path[i - 1].1, path[i].0, path[i].1));
        assert(orig.in_bounds(path[i].0, path[i].1));
        let empty = Seq::<Segment>::empty();
        assert(!covered(empty, path[i].0, path[i].1));
    }
}

/// Repaints with `new_color` the 4-connected region of same-colored pixels that holds
/// (`x`, `y`), using a scanline fill driven by a work list of directed row segments.
///
/// A seed outside the image, or one that already has `new_color`, leaves the image as
/// it is. Otherwise the pixels of the seed's region, and only those, end up `new_color`.
pub fn flood_fill(img: &mut Image, x: i32, y: i32, new_color: Rgba)
    requires
        old(img).wf(),
    ensures
        final(img).wf(),
        final(img).spec_width() == old(img).spec_width(),
        final(img).spec_height() == old(img).spec_height(),
        !old(img).in_bounds(x as int, y as int) ==> final(img).view_pixels() == old(
            img,
        ).view_pixels(),
        old(img).in_bounds(x as int, y as int) && old(img).at(x as int, y as int) == new_color
            ==> final(img).view_pixels() == old(img).view_pixels(),
        old(img).in_bounds(x as int, y as int) ==> forall|i: int, j: int|
            final(img).in_bounds(i, j) ==> #[trigger] final(img).at(i, j) == if connected(
                *old(img),
                x as int,
                y as int,
                i,
                j,
            ) {
                new_color
            } else {
                old(img).at(i, j)
            },
        old(img).in_bounds(x as int, y as int) ==> forall|i: int, j: int|
            final(img).in_bounds(i, j) ==> (#[trigger] final(img).at(i, j) == new_color <==> (
            connected(*old(img), x as int, y as int, i, j) || old(img).at(i, j) == new_color)),
{
    let ghost orig = *img;
    let sx = x as i64;
    let sy = y as i64;
    let target = match img.get_color(sx, sy) {
        Some(p) => p,
        None => {
            return ;
        },
    };
    if target == new_color {
        proof {
            assert forall|i: int, j: int| img.in_bounds(i, j) implies #[trigger] img.at(i, j) == (
            if connected(orig, sx as int, sy as int, i, j) {
                new_color
            } else {
                orig.at(i, j)
            }) by {
                if connected(orig, sx as int, sy as int, i, j) {
                    lemma_connected_color(orig, sx as int, sy as int, i, j);
                }
            }
        }
        return ;
    }
    let mut stack: Vec<Segment> = Vec::new();
    stack.push((sx, sx, sy, 1));
    stack.push((sx, sx, sy - 1, -1));
    proof {
        orig.lemma_dims();
        lemma_connected_seed(orig, sx as int, sy as int);
        assert(seg_holds(stack@[0], sx as int, sy as int));
        assert(seg_holds(stack@[1], sx as int, sy - 1));
        assert forall|k: int| 0 <= k < stack@.len() implies seg_ok(
            orig,
            sx as int,
            sy as int,
            #[trigger] stack@[k],
        ) by {
            if k == 1 {
                assert forall|x: int|
                    sx <= x <= sx && orig.in_bounds(x, sy - 1) && #[trigger] orig.at(x, sy - 1)
                        == orig.at(sx as int, sy as int) implies connected(
                    orig,
                    sx as int,
                    sy as int,
                    x,
                    sy - 1,
                ) by {
                    lemma_connected_step(orig, sx as int, sy as int, sx as int, sy as int, x, sy - 1);
                }
            }
        }
        assert forall|k: int| 0 <= k < stack@.len() implies parent_ok(
            *img,
            target,
            stack@,
            0,
            1,
            0,
            #[trigger] stack@[k],
        ) by {
            let s = stack@[k];
            assert forall|x: int| s.0 <= x <= s.1 implies #[trigger] pending_ok(
                *img,
                target,
                stack@,
                0,
                1,
                0,
                x,
                s.2 - s.3,
            ) by {
                if k == 0 {
                    assert(seg_holds(stack@[1], x, s.2 - s.3));
                } else {
                    assert(seg_holds(stack@[0], x, s.2 - s.3));
                }
            }
        }
    }
    while stack.len() > 0
        invariant
            sound(*img, orig, sx as int, sy as int, new_color),
            orig.in_bounds(sx as int, sy as int),
            target == orig.at(sx as int, sy as int),
            target != new_color,
            stack_ok(orig, sx as int, sy as int, stack@),
            closed_except(*img, orig, target, stack@, 0, 1, 0),
            parents_ok(*img, target, stack@, 0, 1, 0),
            img.at(sx as int, sy as int) != target || covered(stack@, sx as int, sy as int),
        decreases 4 * count_eq(img.view_pixels(), target) + stack@.len(),
    {
        let ghost before = stack@;
        let seg = match stack.pop() {
            Some(s) => s,
            None => {
                return ;
            },
        };
        proof {
            lemma_after_pop(*img, orig, target, before);
            assert(stack@ =~= before.subrange(0, before.len() - 1));
            assert(seg_ok(orig, sx as int, sy as int, before[before.len() - 1]));
            assert forall|k: int| 0 <= k < stack@.len() implies seg_ok(
                orig,
                sx as int,
                sy as int,
                #[trigger] stack@[k],
            ) by {
                assert(stack@[k] == before[k]);
            }
            if img.at(sx as int, sy as int) == target {
                let k = choose|k: int|
                    0 <= k < before.len() && #[trigger] seg_holds(before[k], sx as int, sy as int);
                if k < before.len() - 1 {
                    assert(seg_holds(stack@[k], sx as int, sy as int));
                }
            }
        }
        fill_segment(
            img,
            &mut stack,
            seg,
            target,
            new_color,
            Ghost(orig),
            Ghost(sx as int),
            Ghost(sy as int),
        );
    }
    proof {
        assert(stack@ =~= Seq::<Segment>::empty());
        assert forall|i: int, j: int| img.in_bounds(i, j) implies #[trigger] img.at(i, j) == (
        if connected(orig, sx as int, sy as int, i, j) {
            new_color
        } else {
            orig.at(i, j)
        }) by {
            if connected(orig, sx as int, sy as int, i, j) {
                let path = choose|path: Seq<(int, int)>|
                    #[trigger] is_path(orig, target, path) && path[0] == (sx as int, sy as int)
                        && path.last() == (i, j);
                lemma_path_reached(
                    *img,
                    orig,
                    target,
                    sx as int,
                    sy as int,
                    path,
                    path.len() - 1,
                );
                lemma_connected_color(orig, sx as int, sy as int, i, j);
            }
        }
    }
}

} // verus!
