//! Per-pixel compositing: color lookup, alpha forcing, background blend.

use vstd::prelude::*;
use vstd::arithmetic::div_mod::lemma_div_is_ordered;
use vstd::arithmetic::div_mod::lemma_div_multiples_vanish;
use crate::color::Rgb;

verus! {

/// An RGBA pixel, one byte per channel.
#[derive(Clone, Copy, Debug, PartialEq, Eq, Structural)]
pub struct Rgba {
    pub r: u8,
    pub g: u8,
    pub b: u8,
    pub a: u8,
}

/// The gradient-table slot for an iteration count: the count times 10,
/// modulo the table length. The multiplier folds successive counts into
/// repeating color bands.
pub open spec fn lut_index_spec(iter: u32) -> int {
    (iter as int * 10) % 1024
}

/// Maps an iteration count to its gradient-table slot.
pub fn lut_index(iter: u32) -> (idx: usize)
    ensures
        idx == lut_index_spec(iter),
        idx < 1024,
{
    (((iter as u64) * 10) % 1024) as usize
}

/// One channel of the opaque blend: source x over background bg with
/// opacity a out of 255, truncated: floor((x*a + bg*(255 - a)) / 255).
pub open spec fn blend_channel(x: u8, bg: u8, a: u8) -> int {
    (x * a + bg * (255 - a)) / 255
}

/// A blended channel stays within the byte range; opacity 0 gives the
/// background back, opacity 255 the source.
pub proof fn lemma_blend_channel_bounds(x: u8, bg: u8, a: u8)
    ensures
        0 <= blend_channel(x, bg, a) <= 255,
        a == 0 ==> blend_channel(x, bg, a) == bg,
        a == 255 ==> blend_channel(x, bg, a) == x,
{
    let num = x * a + bg * (255 - a);
    assert(0 <= num <= 255 * 255) by (nonlinear_arith)
        requires
            num == x * a + bg * (255 - a),
            x <= 255,
            bg <= 255,
            a <= 255,
    ;
    lemma_div_is_ordered(0, num, 255);
    lemma_div_is_ordered(num, 255int * 255, 255);
    lemma_div_multiples_vanish(255, 255);
    if a == 0 {
        assert(num == 255 * bg) by (nonlinear_arith)
            requires
                num == x * a + bg * (255 - a),
                a == 0,
        ;
        lemma_div_multiples_vanish(bg as int, 255);
    }
    if a == 255 {
        assert(num == 255 * x) by (nonlinear_arith)
            requires
                num == x * a + bg * (255 - a),
                a == 255,
        ;
        lemma_div_multiples_vanish(x as int, 255);
    }
}

/// One channel of the opaque blend.
fn blend_byte(x: u8, bg: u8, a: u8) -> (v: u8)
    ensures
        v == blend_channel(x, bg, a),
{
    proof {
        lemma_blend_channel_bounds(x, bg, a);
        assert(x as int * (a as int) <= 255 * 255) by (nonlinear_arith)
            requires
                x <= 255,
                a <= 255,
        ;
        assert(bg as int * (255 - a as int) <= 255 * 255) by (nonlinear_arith)
            requires
                bg <= 255,
                0 <= 255 - a as int <= 255,
        ;
    }
    let num: u32 = (x as u32) * (a as u32) + (bg as u32) * (255 - (a as u32));
    (num / 255) as u8
}

/// The alpha a pixel keeps: a pixel that reached the iteration cap lies
/// inside the set and is forced fully transparent.
pub open spec fn effective_alpha(iter: u32, max_iter: u32, alpha: u8) -> u8 {
    if iter >= max_iter {
        0
    } else {
        alpha
    }
}

/// The finished RGBA pixel for one iteration count. Transparent mode
/// emits the looked-up color with the effective alpha; opaque mode blends
/// it over the background and pins alpha to 255.
pub open spec fn composite_spec(
    iter: u32,
    max_iter: u32,
    alpha: u8,
    lut: Seq<Rgb>,
    bg: Rgb,
    transparent: bool,
) -> Rgba
    recommends
        lut.len() == 1024,
{
    let c = lut[lut_index_spec(iter)];
    let a = effective_alpha(iter, max_iter, alpha);
    if transparent {
        Rgba { r: c.r, g: c.g, b: c.b, a }
    } else {
        Rgba {
            r: blend_channel(c.r, bg.r, a) as u8,
            g: blend_channel(c.g, bg.g, a) as u8,
            b: blend_channel(c.b, bg.b, a) as u8,
            a: 255,
        }
    }
}

/// Composites one pixel from its iteration count, the iteration cap, the
/// host-computed fade alpha, the gradient table and the background.
pub fn composite_pixel(
    iter: u32,
    max_iter: u32,
    alpha: u8,
    lut: &Vec<Rgb>,
    bg: Rgb,
    transparent: bool,
) -> (px: Rgba)
    requires
        lut@.len() == 1024,
    ensures
        px == composite_spec(iter, max_iter, alpha, lut@, bg, transparent),
{
    let idx: usize = lut_index(iter);
    let c: Rgb = lut[idx];
    let a: u8 = if iter >= max_iter {
        0
    } else {
        alpha
    };
    if transparent {
        Rgba { r: c.r, g: c.g, b: c.b, a }
    } else {
        proof {
            lemma_blend_channel_bounds(c.r, bg.r, a);
            lemma_blend_channel_bounds(c.g, bg.g, a);
            lemma_blend_channel_bounds(c.b, bg.b, a);
        }
        let r: u8 = blend_byte(c.r, bg.r, a);
        let g: u8 = blend_byte(c.g, bg.g, a);
        let b: u8 = blend_byte(c.b, bg.b, a);
        Rgba { r, g, b, a: 255 }
    }
}

/// A pixel at the iteration cap is invisible, whatever its fade alpha:
/// transparent mode gives it alpha 0, and opaque mode renders exactly the
/// background color at full alpha 255.
pub proof fn lemma_capped_pixel_invisible(
    iter: u32,
    max_iter: u32,
    alpha: u8,
    lut: Seq<Rgb>,
    bg: Rgb,
)
    requires
        lut.len() == 1024,
        iter >= max_iter,
    ensures
        composite_spec(iter, max_iter, alpha, lut, bg, true).a == 0,
        composite_spec(iter, max_iter, alpha, lut, bg, false) == (Rgba {
            r: bg.r,
            g: bg.g,
            b: bg.b,
            a: 255,
        }),
{
    let c = lut[lut_index_spec(iter)];
    lemma_blend_channel_bounds(c.r, bg.r, 0);
    lemma_blend_channel_bounds(c.g, bg.g, 0);
    lemma_blend_channel_bounds(c.b, bg.b, 0);
}

} // verus!
