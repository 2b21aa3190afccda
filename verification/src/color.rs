//! RGB colors and the parsing of the packed control-color input.

use vstd::prelude::*;

verus! {

/// An RGB color, one byte per channel.
#[derive(Clone, Copy, Debug, PartialEq, Eq, Structural)]
pub struct Rgb {
    pub r: u8,
    pub g: u8,
    pub b: u8,
}

/// The all-zero color.
pub open spec fn black() -> Rgb {
    Rgb { r: 0, g: 0, b: 0 }
}

/// How many control colors a packed byte sequence yields: one color per
/// complete 3-byte triple, capped at 5.
pub open spec fn control_color_count(len: int) -> int {
    if len / 3 < 5 {
        len / 3
    } else {
        5
    }
}

/// The control colors encoded by a packed byte sequence: consecutive
/// (r, g, b) triples, at most 5 of them; a trailing partial triple is
/// ignored.
pub open spec fn control_colors(flat: Seq<u8>) -> Seq<Rgb> {
    Seq::new(control_color_count(flat.len() as int) as nat, |i: int| Rgb {
        r: flat[3 * i],
        g: flat[3 * i + 1],
        b: flat[3 * i + 2],
    })
}

/// Unpacks up to 5 RGB control colors from a flat byte sequence.
/// Short input degrades to fewer colors; extra bytes are ignored.
pub fn parse_control_colors(flat: &Vec<u8>) -> (colors: Vec<Rgb>)
    ensures
        colors@ == control_colors(flat@),
        colors@.len() <= 5,
{
    let mut colors: Vec<Rgb> = Vec::new();
    let mut i: usize = 0;
    while i < 5
        invariant
            i <= 5,
            colors@.len() == (if i as int <= control_color_count(flat@.len() as int) {
                i as int
            } else {
                control_color_count(flat@.len() as int)
            }),
            forall|q: int|
                0 <= q < colors@.len() ==> colors@[q] == (#[trigger] control_colors(flat@)[q]),
        decreases 5 - i,
    {
        let off: usize = i * 3;
        if off + 2 < flat.len() {
            colors.push(Rgb { r: flat[off], g: flat[off + 1], b: flat[off + 2] });
        }
        i = i + 1;
    }
    proof {
        assert(colors@ =~= control_colors(flat@));
    }
    colors
}

/// The brightness of a color: the maximum of its three channels.
pub open spec fn brightness_spec(c: Rgb) -> u8 {
    if c.r >= c.g && c.r >= c.b {
        c.r
    } else if c.g >= c.b {
        c.g
    } else {
        c.b
    }
}

/// Returns the maximum of the three channels, the brightness the host
/// feeds into its alpha fade.
pub fn brightness(c: Rgb) -> (m: u8)
    ensures
        m == brightness_spec(c),
        m >= c.r && m >= c.g && m >= c.b,
{
    if c.r >= c.g && c.r >= c.b {
        c.r
    } else if c.g >= c.b {
        c.g
    } else {
        c.b
    }
}

} // verus!
