//! The rendering pipeline: variant selection and assembly of the RGBA
//! output buffer from per-pixel iteration counts and alpha bytes.

use vstd::prelude::*;
use crate::color::Rgb;
use crate::color::control_colors;
use crate::color::parse_control_colors;
use crate::gradient::gradient_spec;
use crate::gradient::build_gradient_lut;
use crate::pixel::Rgba;
use crate::pixel::composite_spec;
use crate::pixel::composite_pixel;

verus! {

/// The five escape-time iteration rules.
#[derive(Clone, Copy, Debug, PartialEq, Eq, Structural)]
pub enum FractalVariant {
    Standard,
    BurningShip,
    Tricorn,
    Celtic,
    Cosine,
}

/// The variant a numeric selector denotes; an out-of-range selector
/// falls back to Standard.
pub open spec fn variant_spec(code: u32) -> FractalVariant {
    if code == 1 {
        FractalVariant::BurningShip
    } else if code == 2 {
        FractalVariant::Tricorn
    } else if code == 3 {
        FractalVariant::Celtic
    } else if code == 4 {
        FractalVariant::Cosine
    } else {
        FractalVariant::Standard
    }
}

/// Decodes the numeric variant selector of the host interface.
pub fn variant_from_code(code: u32) -> (v: FractalVariant)
    ensures
        v == variant_spec(code),
{
    match code {
        1 => FractalVariant::BurningShip,
        2 => FractalVariant::Tricorn,
        3 => FractalVariant::Celtic,
        4 => FractalVariant::Cosine,
        _ => FractalVariant::Standard,
    }
}

/// The RGBA pixel stored at slot p of a flat frame buffer.
pub open spec fn pixel_at(buf: Seq<u8>, p: int) -> Rgba {
    Rgba { r: buf[4 * p], g: buf[4 * p + 1], b: buf[4 * p + 2], a: buf[4 * p + 3] }
}

/// The pixel the pipeline owes at slot p: its iteration count and fade
/// alpha composited against the gradient table of the control colors.
pub open spec fn frame_pixel(
    iters: Seq<u32>,
    alphas: Seq<u8>,
    p: int,
    max_iter: u32,
    colors_flat: Seq<u8>,
    bg: Rgb,
    transparent: bool,
) -> Rgba {
    composite_spec(
        iters[p],
        max_iter,
        alphas[p],
        gradient_spec(control_colors(colors_flat)),
        bg,
        transparent,
    )
}

/// Renders a frame: builds the gradient table from the packed control
/// colors once, then composites every pixel in row-major order, four
/// bytes per pixel. The host supplies one iteration count and one fade
/// alpha per pixel; pixel (x, y) is slot y*width + x.
pub fn render_frame(
    width: u32,
    height: u32,
    iters: &Vec<u32>,
    alphas: &Vec<u8>,
    colors_flat: &Vec<u8>,
    max_iter: u32,
    bg: Rgb,
    transparent: bool,
) -> (buf: Vec<u8>)
    requires
        iters@.len() == width as int * height as int,
        alphas@.len() == width as int * height as int,
        width as int * height as int * 4 <= usize::MAX as int,
    ensures
        buf@.len() == width as int * height as int * 4,
        forall|p: int|
            0 <= p < width as int * height as int ==> pixel_at(buf@, p)
                == #[trigger] frame_pixel(
                iters@,
                alphas@,
                p,
                max_iter,
                colors_flat@,
                bg,
                transparent,
            ),
{
    let count: usize = (width as usize) * (height as usize);
    let colors = parse_control_colors(colors_flat);
    let lut = build_gradient_lut(&colors);
    let mut buf: Vec<u8> = Vec::new();
    let mut p: usize = 0;
    while p < count
        invariant
            count == width as int * height as int,
            iters@.len() == count,
            alphas@.len() == count,
            count * 4 <= usize::MAX,
            lut@.len() == 1024,
            lut@ == gradient_spec(control_colors(colors_flat@)),
            p <= count,
            buf@.len() == 4 * p,
            forall|q: int|
                0 <= q < p ==> pixel_at(buf@, q) == #[trigger] frame_pixel(
                    iters@,
                    alphas@,
                    q,
                    max_iter,
                    colors_flat@,
                    bg,
                    transparent,
                ),
        decreases count - p,
    {
        let px = composite_pixel(iters[p], max_iter, alphas[p], &lut, bg, transparent);
        buf.push(px.r);
        buf.push(px.g);
        buf.push(px.b);
        buf.push(px.a);
        p = p + 1;
    }
    buf
}

} // verus!
