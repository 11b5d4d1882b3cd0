//! The pixel model and per-pixel source-over alpha compositing.

use vstd::prelude::*;

verus! {

/// One pixel: red, green, blue and alpha channels, 8 bits each.
#[derive(Clone, Copy, PartialEq, Eq, Structural, Debug)]
pub struct Pixel {
    pub r: u8,
    pub g: u8,
    pub b: u8,
    pub a: u8,
}

/// The canvas background color: opaque near-black.
pub open spec fn background() -> Pixel {
    Pixel { r: 20, g: 20, b: 20, a: 255 }
}

/// Builds the canvas background color.
pub fn background_pixel() -> (p: Pixel)
    ensures
        p == background(),
{
    Pixel { r: 20, g: 20, b: 20, a: 255 }
}

/// Alpha channel of the source-over composite of a source pixel with alpha
/// `sa` over a destination pixel with alpha `da`, in truncating integer
/// arithmetic. Always within `[max(sa, 0), 255]` for channel values.
pub open spec fn blend_alpha(sa: int, da: int) -> int {
    sa + da * (255 - sa) / 255
}

/// One color channel of the source-over composite: the premultiplied source
/// and destination contributions, divided by the composite alpha and clamped
/// to the channel range. Only meaningful when `blend_alpha(sa, da) != 0`.
pub open spec fn blend_channel(sc: int, sa: int, dc: int, da: int) -> int {
    let q = (sc * sa * 255 + dc * da * (255 - sa)) / (blend_alpha(sa, da) * 255);
    if q > 255 {
        255
    } else {
        q
    }
}

/// Source-over composite of `src` over `dst`: `src` is weighted by its own
/// alpha, `dst` by its alpha and the remaining transparency of `src`. A fully
/// transparent composite is the all-zero pixel. Division truncates and the
/// channels are clamped, so this is one fixed integer reading of the standard
/// source-over operator; an opaque source replaces the destination exactly.
pub open spec fn spec_blend(src: Pixel, dst: Pixel) -> Pixel {
    let oa = blend_alpha(src.a as int, dst.a as int);
    if oa == 0 {
        Pixel { r: 0, g: 0, b: 0, a: 0 }
    } else {
        Pixel {
            r: blend_channel(src.r as int, src.a as int, dst.r as int, dst.a as int) as u8,
            g: blend_channel(src.g as int, src.a as int, dst.g as int, dst.a as int) as u8,
            b: blend_channel(src.b as int, src.a as int, dst.b as int, dst.a as int) as u8,
            a: oa as u8,
        }
    }
}

/// The composite alpha stays within the channel range.
proof fn lemma_blend_alpha_bounds(sa: int, da: int)
    requires
        0 <= sa <= 255,
        0 <= da <= 255,
    ensures
        0 <= blend_alpha(sa, da) <= 255,
        sa <= blend_alpha(sa, da),
{
    assert(da * (255 - sa) >= 0) by (nonlinear_arith)
        requires
            0 <= da,
            sa <= 255,
    ;
    assert(da * (255 - sa) <= 255 * (255 - sa)) by (nonlinear_arith)
        requires
            da <= 255,
            0 <= 255 - sa,
    ;
    vstd::arithmetic::div_mod::lemma_div_is_ordered(da * (255 - sa), 255 * (255 - sa), 255);
    vstd::arithmetic::div_mod::lemma_div_multiples_vanish(255 - sa, 255);
    vstd::arithmetic::div_mod::lemma_div_pos_is_pos(da * (255 - sa), 255);
}

/// A channel of the composite stays within the channel range whenever the
/// composite alpha is positive.
proof fn lemma_blend_channel_bounds(sc: int, sa: int, dc: int, da: int)
    requires
        0 <= sc <= 255,
        0 <= sa <= 255,
        0 <= dc <= 255,
        0 <= da <= 255,
        blend_alpha(sa, da) >= 1,
    ensures
        0 <= blend_channel(sc, sa, dc, da) <= 255,
{
    assert(sc * sa * 255 + dc * da * (255 - sa) >= 0) by (nonlinear_arith)
        requires
            0 <= sc,
            0 <= sa,
            0 <= dc,
            0 <= da,
            sa <= 255,
    ;
    assert(blend_alpha(sa, da) * 255 >= 255) by (nonlinear_arith)
        requires
            blend_alpha(sa, da) >= 1,
    ;
    vstd::arithmetic::div_mod::lemma_div_pos_is_pos(
        sc * sa * 255 + dc * da * (255 - sa),
        blend_alpha(sa, da) * 255,
    );
}

/// An opaque source pixel replaces the destination: with source alpha 255 the
/// destination contributes nothing and the truncating division is exact.
pub proof fn lemma_blend_opaque(src: Pixel, dst: Pixel)
    requires
        src.a == 255,
    ensures
        spec_blend(src, dst) == src,
{
    assert(dst.a as int * (255 - 255) / 255 == 0);
    assert(blend_alpha(src.a as int, dst.a as int) == 255);
    lemma_blend_channel_exact(src.r as int, dst.r as int, dst.a as int);
    lemma_blend_channel_exact(src.g as int, dst.g as int, dst.a as int);
    lemma_blend_channel_exact(src.b as int, dst.b as int, dst.a as int);
}

/// With source alpha 255, one channel of the composite is the source channel.
proof fn lemma_blend_channel_exact(sc: int, dc: int, da: int)
    requires
        0 <= sc <= 255,
    ensures
        blend_channel(sc, 255, dc, da) == sc,
{
    assert(blend_alpha(255, da) == 255);
    assert(sc * 255 * 255 + dc * da * (255 - 255) == sc * 65025) by (nonlinear_arith);
    vstd::arithmetic::div_mod::lemma_div_multiples_vanish(sc, 65025);
    assert((sc * 65025) / 65025 == (65025 * sc) / 65025) by (nonlinear_arith);
}

/// A fully transparent source over an opaque destination leaves the
/// destination unchanged.
pub proof fn lemma_blend_transparent_source(src: Pixel, dst: Pixel)
    requires
        src.a == 0,
        dst.a == 255,
    ensures
        spec_blend(src, dst) == dst,
{
    assert(255 * (255 - 0) / 255 == 255) by {
        vstd::arithmetic::div_mod::lemma_div_multiples_vanish(255, 255);
        assert(255 * 255 == 255 * (255 - 0));
    }
    assert(blend_alpha(0, 255) == 255);
    lemma_transparent_channel(src.r as int, dst.r as int);
    lemma_transparent_channel(src.g as int, dst.g as int);
    lemma_transparent_channel(src.b as int, dst.b as int);
}

/// With source alpha 0 and destination alpha 255, one channel of the
/// composite is the destination channel.
proof fn lemma_transparent_channel(sc: int, dc: int)
    requires
        0 <= dc <= 255,
    ensures
        blend_channel(sc, 0, dc, 255) == dc,
{
    assert(255 * (255 - 0) / 255 == 255) by {
        vstd::arithmetic::div_mod::lemma_div_multiples_vanish(255, 255);
        assert(255 * 255 == 255 * (255 - 0));
    }
    assert(blend_alpha(0, 255) == 255);
    assert(sc * 0 * 255 + dc * 255 * (255 - 0) == dc * 65025) by (nonlinear_arith);
    vstd::arithmetic::div_mod::lemma_div_multiples_vanish(dc, 65025);
    assert((dc * 65025) / 65025 == (65025 * dc) / 65025) by (nonlinear_arith);
}

/// One color channel of the source-over composite in machine arithmetic.
fn blend_channel_exec(sc: u8, sa8: u8, dc: u8, da8: u8, oa: u32) -> (out: u8)
    requires
        oa == blend_alpha(sa8 as int, da8 as int),
        1 <= oa <= 255,
    ensures
        out as int == blend_channel(sc as int, sa8 as int, dc as int, da8 as int),
{
    let sa: u32 = sa8 as u32;
    let da: u32 = da8 as u32;
    let ia: u32 = 255 - sa;
    proof {
        assert(sc as int * sa as int <= 65025 && sc as int * sa as int * 255 <= 16581375)
            by (nonlinear_arith)
            requires
                0 <= sc as int <= 255,
                0 <= sa as int <= 255,
        ;
        assert(dc as int * da as int <= 65025 && dc as int * da as int * ia as int <= 16581375)
            by (nonlinear_arith)
            requires
                0 <= dc as int <= 255,
                0 <= da as int <= 255,
                0 <= ia as int <= 255,
        ;
    }
    let num: u32 = sc as u32 * sa * 255 + dc as u32 * da * ia;
    let q: u32 = num / (oa * 255);
    proof {
        lemma_blend_channel_bounds(sc as int, sa8 as int, dc as int, da8 as int);
    }
    if q > 255 {
        255
    } else {
        q as u8
    }
}

/// Source-over alpha compositing of `src` over `dst`, the per-pixel operation
/// of the overlay stage.
pub fn blend_over(src: Pixel, dst: Pixel) -> (out: Pixel)
    ensures
        out == spec_blend(src, dst),
{
    let sa: u32 = src.a as u32;
    let da: u32 = dst.a as u32;
    proof {
        assert(da as int * (255 - sa as int) <= 65025) by (nonlinear_arith)
            requires
                0 <= da as int <= 255,
                0 <= 255 - sa as int <= 255,
        ;
        lemma_blend_alpha_bounds(src.a as int, dst.a as int);
    }
    let oa: u32 = sa + da * (255 - sa) / 255;
    if oa == 0 {
        Pixel { r: 0, g: 0, b: 0, a: 0 }
    } else {
        Pixel {
            r: blend_channel_exec(src.r, src.a, dst.r, dst.a, oa),
            g: blend_channel_exec(src.g, src.a, dst.g, dst.a, oa),
            b: blend_channel_exec(src.b, src.a, dst.b, dst.a, oa),
            a: oa as u8,
        }
    }
}

} // verus!
