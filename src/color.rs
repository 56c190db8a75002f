use vstd::prelude::*;

verus! {

/// An 8-bit RGBA color.
#[derive(Debug, Clone, Copy, PartialEq, Eq, Structural)]
pub struct Rgba {
    pub r: u8,
    pub g: u8,
    pub b: u8,
    pub a: u8,
}

impl Rgba {
    pub fn new(r: u8, g: u8, b: u8, a: u8) -> (c: Rgba)
        ensures
            c == (Rgba { r, g, b, a }),
    {
        Rgba { r, g, b, a }
    }

    /// Fully transparent black: what erasing leaves behind.
    pub fn blank() -> (c: Rgba)
        ensures
            c == (Rgba { r: 0, g: 0, b: 0, a: 0 }),
    {
        Rgba { r: 0, g: 0, b: 0, a: 0 }
    }

    /// Opaque white.
    pub fn white() -> (c: Rgba)
        ensures
            c == (Rgba { r: 255, g: 255, b: 255, a: 255 }),
    {
        Rgba { r: 255, g: 255, b: 255, a: 255 }
    }
}

/// Mixes one channel: `s` weighted by `a`, `d` by `255 - a`, rounded to nearest.
pub open spec fn mix_spec(s: int, d: int, a: int) -> int {
    (s * a + d * (255 - a) + 127) / 255
}

/// Alpha of `src` laid over a destination of alpha `da`.
pub open spec fn over_alpha_spec(sa: int, da: int) -> int {
    sa + (da * (255 - sa) + 127) / 255
}

/// Normal alpha compositing of `src` over `dst`.
pub open spec fn blend_over_spec(src: Rgba, dst: Rgba) -> Rgba {
    Rgba {
        r: mix_spec(src.r as int, dst.r as int, src.a as int) as u8,
        g: mix_spec(src.g as int, dst.g as int, src.a as int) as u8,
        b: mix_spec(src.b as int, dst.b as int, src.a as int) as u8,
        a: over_alpha_spec(src.a as int, dst.a as int) as u8,
    }
}

proof fn lemma_mix_bounds(s: int, d: int, a: int)
    requires
        0 <= s <= 255,
        0 <= d <= 255,
        0 <= a <= 255,
    ensures
        0 <= s * a + d * (255 - a) + 127 <= 255 * 255 + 127,
        0 <= mix_spec(s, d, a) <= 255,
        a == 255 ==> mix_spec(s, d, a) == s,
        a == 0 ==> mix_spec(s, d, a) == d,
        s == 0 ==> mix_spec(s, d, a) <= 255 - a,
{
    assert(0 <= s * a <= 255 * a) by (nonlinear_arith)
        requires 0 <= s <= 255, 0 <= a <= 255;
    assert(0 <= d * (255 - a) <= 255 * (255 - a)) by (nonlinear_arith)
        requires 0 <= d <= 255, 0 <= a <= 255;
    if s == 0 {
        let n = d * (255 - a) + 127;
        assert(n < 255 * (255 - a + 1));
        assert(n / 255 <= 255 - a) by (nonlinear_arith)
            requires 0 <= n < 255 * (255 - a + 1);
    }
    if a == 255 {
        assert(s * a + d * (255 - a) + 127 == 255 * s + 127) by (nonlinear_arith)
            requires a == 255;
    }
    if a == 0 {
        assert(s * a + d * (255 - a) + 127 == 255 * d + 127) by (nonlinear_arith)
            requires a == 0;
    }
}

/// An opaque color laid over anything gives itself.
pub proof fn lemma_blend_opaque(src: Rgba, dst: Rgba)
    requires
        src.a == 255,
    ensures
        blend_over_spec(src, dst) == src,
{
    lemma_mix_bounds(src.r as int, dst.r as int, 255);
    lemma_mix_bounds(src.g as int, dst.g as int, 255);
    lemma_mix_bounds(src.b as int, dst.b as int, 255);
    lemma_mix_bounds(0, dst.a as int, 255);
}

fn mix(s: u8, d: u8, a: u8) -> (r: u8)
    ensures
        r as int == mix_spec(s as int, d as int, a as int),
{
    proof {
        lemma_mix_bounds(s as int, d as int, a as int);
    }
    let t: u32 = s as u32 * a as u32 + d as u32 * (255 - a as u32) + 127;
    (t / 255) as u8
}

/// Lays `src` over `dst` with normal alpha compositing.
pub fn blend_over(src: Rgba, dst: Rgba) -> (r: Rgba)
    ensures
        r == blend_over_spec(src, dst),
        src.a == 255 ==> r == src,
        src.a == 0 ==> r == dst,
{
    proof {
        lemma_mix_bounds(src.r as int, dst.r as int, src.a as int);
        lemma_mix_bounds(src.g as int, dst.g as int, src.a as int);
        lemma_mix_bounds(src.b as int, dst.b as int, src.a as int);
        lemma_mix_bounds(0, dst.a as int, src.a as int);
    }
    let extra = mix(0, dst.a, src.a);
    Rgba {
        r: mix(src.r, dst.r, src.a),
        g: mix(src.g, dst.g, src.a),
        b: mix(src.b, dst.b, src.a),
        a: src.a + extra,
    }
}

} // verus!
