//! Gradient lookup table: 1024 colors interpolated between control colors.
//!
//! The 1024 slots are split into n-1 equal-width segments, one per
//! consecutive pair of the n control colors; the last segment absorbs the
//! rounding remainder. Within a segment the channels are interpolated
//! linearly (exact rational arithmetic, truncated to a byte). Fewer than 2
//! control colors yield an all-black table.

use vstd::prelude::*;
use vstd::arithmetic::div_mod::lemma_div_is_ordered;
use vstd::arithmetic::div_mod::lemma_div_multiples_vanish;
use vstd::arithmetic::div_mod::lemma_fundamental_div_mod_converse;
use crate::color::Rgb;
use crate::color::black;

verus! {

/// Linear interpolation of one channel, c1 at position j = 0 and c2 at
/// j = m, truncated: floor((c1*(m-j) + c2*j) / m).
pub open spec fn lerp_channel(c1: u8, c2: u8, j: int, m: int) -> int {
    (c1 * (m - j) + c2 * j) / m
}

/// Channel-wise linear interpolation of two colors.
pub open spec fn lerp_rgb(a: Rgb, b: Rgb, j: int, m: int) -> Rgb {
    Rgb {
        r: lerp_channel(a.r, b.r, j, m) as u8,
        g: lerp_channel(a.g, b.g, j, m) as u8,
        b: lerp_channel(a.b, b.b, j, m) as u8,
    }
}

/// An interpolated channel stays within the byte range, and interpolating
/// between equal endpoints gives that endpoint back.
pub proof fn lemma_lerp_channel_bounds(c1: u8, c2: u8, j: int, m: int)
    requires
        1 <= m,
        0 <= j <= m,
    ensures
        0 <= lerp_channel(c1, c2, j, m) <= 255,
        c1 == c2 ==> lerp_channel(c1, c2, j, m) == c1,
{
    let num = c1 * (m - j) + c2 * j;
    assert(0 <= num <= 255 * m) by (nonlinear_arith)
        requires
            num == c1 * (m - j) + c2 * j,
            1 <= m,
            0 <= j <= m,
            c1 <= 255,
            c2 <= 255,
    ;
    lemma_div_is_ordered(0, num, m);
    lemma_div_is_ordered(num, 255 * m, m);
    lemma_div_multiples_vanish(255, m);
    assert(255 * m == m * 255);
    if c1 == c2 {
        assert(num == m * c1) by (nonlinear_arith)
            requires
                num == c1 * (m - j) + c2 * j,
                c1 == c2,
        ;
        lemma_div_multiples_vanish(c1 as int, m);
    }
}

/// Linearly interpolates each channel between `a` (at j = 0) and `b`
/// (at j = m), truncating to a byte.
pub fn lerp_color(a: Rgb, b: Rgb, j: usize, m: usize) -> (c: Rgb)
    requires
        1 <= m <= 1023,
        j <= m,
    ensures
        c == lerp_rgb(a, b, j as int, m as int),
{
    proof {
        lemma_lerp_channel_bounds(a.r, b.r, j as int, m as int);
        lemma_lerp_channel_bounds(a.g, b.g, j as int, m as int);
        lemma_lerp_channel_bounds(a.b, b.b, j as int, m as int);
    }
    let r: u8 = lerp_byte(a.r, b.r, j, m);
    let g: u8 = lerp_byte(a.g, b.g, j, m);
    let b2: u8 = lerp_byte(a.b, b.b, j, m);
    Rgb { r, g, b: b2 }
}

/// One channel of `lerp_color`.
fn lerp_byte(c1: u8, c2: u8, j: usize, m: usize) -> (v: u8)
    requires
        1 <= m <= 1023,
        j <= m,
    ensures
        v == lerp_channel(c1, c2, j as int, m as int),
{
    proof {
        lemma_lerp_channel_bounds(c1, c2, j as int, m as int);
        assert(c1 as int * ((m - j) as int) <= 255 * 1023) by (nonlinear_arith)
            requires
                c1 <= 255,
                0 <= (m - j) as int <= 1023,
        ;
        assert(c2 as int * (j as int) <= 255 * 1023) by (nonlinear_arith)
            requires
                c2 <= 255,
                0 <= j as int <= 1023,
        ;
    }
    let num: u32 = (c1 as u32) * ((m - j) as u32) + (c2 as u32) * (j as u32);
    (num / (m as u32)) as u8
}

/// The index of the interpolation segment that table slot k falls in,
/// for n control colors.
pub open spec fn segment_index(n: int, k: int) -> int {
    let segs = n - 1;
    let sps = 1024int / segs;
    if k / sps < segs - 1 {
        k / sps
    } else {
        segs - 1
    }
}

/// The first table slot of segment i.
pub open spec fn segment_start(n: int, i: int) -> int {
    i * (1024int / (n - 1))
}

/// One past the last table slot of segment i; the final segment runs to
/// the end of the table.
pub open spec fn segment_end(n: int, i: int) -> int {
    if i < n - 2 {
        segment_start(n, i + 1)
    } else {
        1024
    }
}

/// The color of table slot k for a given control-color sequence of
/// length 2 to 5.
pub open spec fn gradient_entry(colors: Seq<Rgb>, k: int) -> Rgb
    recommends
        2 <= colors.len() <= 5,
        0 <= k < 1024,
{
    let n = colors.len() as int;
    let i = segment_index(n, k);
    let s = segment_start(n, i);
    let seg = segment_end(n, i) - s;
    let m = if seg > 1 {
        seg - 1
    } else {
        1
    };
    lerp_rgb(colors[i], colors[i + 1], k - s, m)
}

/// The whole 1024-entry gradient table: all black for fewer than 2
/// control colors, otherwise interpolated segment by segment.
pub open spec fn gradient_spec(colors: Seq<Rgb>) -> Seq<Rgb> {
    if colors.len() < 2 {
        Seq::new(1024, |k: int| black())
    } else {
        Seq::new(1024, |k: int| gradient_entry(colors, k))
    }
}

/// The width of the equal-sized segments: 1024 divided by the segment
/// count, spelled out for each admissible number of control colors.
pub proof fn lemma_sps_value(n: int)
    requires
        2 <= n <= 5,
    ensures
        1024int / (n - 1) == (if n == 2 {
            1024int
        } else if n == 3 {
            512int
        } else if n == 4 {
            341int
        } else {
            256int
        }),
{
    if n == 2 {
        lemma_fundamental_div_mod_converse(1024, 1, 1024, 0);
    } else if n == 3 {
        lemma_fundamental_div_mod_converse(1024, 2, 512, 0);
    } else if n == 4 {
        lemma_fundamental_div_mod_converse(1024, 3, 341, 1);
    } else {
        lemma_fundamental_div_mod_converse(1024, 4, 256, 0);
    }
}

/// Slot k of a table for n control colors lies inside its segment: the
/// segment index, local offset and width are all in range.
pub proof fn lemma_segment_geometry(n: int, k: int)
    requires
        2 <= n <= 5,
        0 <= k < 1024,
    ensures
        0 <= segment_index(n, k) <= n - 2,
        segment_start(n, segment_index(n, k)) <= k < segment_end(n, segment_index(n, k)),
        1 <= segment_end(n, segment_index(n, k)) - segment_start(n, segment_index(n, k)) <= 1024,
{
    assert(n == 2 || n == 3 || n == 4 || n == 5);
    if n == 2 {
        assert(1024int / (n - 1) == 1024);
        assert(segment_index(n, k) == 0);
    } else if n == 3 {
        assert(1024int / (n - 1) == 512);
    } else if n == 4 {
        assert(1024int / (n - 1) == 341);
    } else {
        assert(1024int / (n - 1) == 256);
    }
}

/// Builds the gradient lookup table from up to 5 control colors.
/// The table always has exactly 1024 entries.
pub fn build_gradient_lut(colors: &Vec<Rgb>) -> (lut: Vec<Rgb>)
    requires
        colors@.len() <= 5,
    ensures
        lut@.len() == 1024,
        lut@ == gradient_spec(colors@),
{
    let mut lut: Vec<Rgb> = Vec::new();
    if colors.len() < 2 {
        let mut k: usize = 0;
        while k < 1024
            invariant
                lut@.len() == k,
                k <= 1024,
                forall|q: int| 0 <= q < k ==> lut@[q] == black(),
            decreases 1024 - k,
        {
            lut.push(Rgb { r: 0, g: 0, b: 0 });
            k = k + 1;
        }
        proof {
            assert(lut@ =~= gradient_spec(colors@));
        }
        return lut;
    }
    let n: usize = colors.len();
    let segs: usize = n - 1;
    let sps: usize = if segs == 1 {
        1024
    } else if segs == 2 {
        512
    } else if segs == 3 {
        341
    } else {
        256
    };
    proof {
        lemma_sps_value(n as int);
        assert(sps as int == 1024int / (n as int - 1));
    }
    let mut k: usize = 0;
    while k < 1024
        invariant
            2 <= n == colors@.len() <= 5,
            segs == n - 1,
            sps == 1024int / (segs as int),
            256 <= sps <= 1024,
            lut@.len() == k,
            k <= 1024,
            forall|q: int| 0 <= q < k ==> lut@[q] == #[trigger] gradient_entry(colors@, q),
        decreases 1024 - k,
    {
        let q: usize = k / sps;
        let i: usize = if q < segs - 1 {
            q
        } else {
            segs - 1
        };
        proof {
            lemma_segment_geometry(n as int, k as int);
            assert(i as int == segment_index(n as int, k as int));
            assert((i as int) * (sps as int) == segment_start(n as int, i as int));
            assert((i as int) * (sps as int) <= k);
        }
        let s: usize = i * sps;
        let e: usize = if i < segs - 1 {
            s + sps
        } else {
            1024
        };
        proof {
            assert((i as int + 1) * (sps as int) == (i as int) * (sps as int) + (sps as int))
                by (nonlinear_arith);
            assert(e as int == segment_end(n as int, i as int));
            assert(s <= k < e);
        }
        let seg: usize = e - s;
        let m: usize = if seg > 1 {
            seg - 1
        } else {
            1
        };
        let entry = lerp_color(colors[i], colors[i + 1], k - s, m);
        proof {
            assert(entry == gradient_entry(colors@, k as int));
        }
        lut.push(entry);
        k = k + 1;
    }
    proof {
        assert(lut@ =~= gradient_spec(colors@));
    }
    lut
}

/// Control colors that are all the same yield a constant table: every
/// slot holds that color.
pub proof fn lemma_constant_gradient(colors: Seq<Rgb>, k: int)
    requires
        2 <= colors.len() <= 5,
        forall|i: int| 0 <= i < colors.len() ==> #[trigger] colors[i] == colors[0],
        0 <= k < 1024,
    ensures
        gradient_spec(colors)[k] == colors[0],
{
    let n = colors.len() as int;
    lemma_segment_geometry(n, k);
    let i = segment_index(n, k);
    let s = segment_start(n, i);
    let seg = segment_end(n, i) - s;
    let m = if seg > 1 {
        seg - 1
    } else {
        1
    };
    assert(colors[i] == colors[0]);
    assert(colors[i + 1] == colors[0]);
    let c = colors[0];
    lemma_lerp_channel_bounds(c.r, c.r, k - s, m);
    lemma_lerp_channel_bounds(c.g, c.g, k - s, m);
    lemma_lerp_channel_bounds(c.b, c.b, k - s, m);
}

/// The gradient table always has exactly 1024 entries, for any number of
/// control colors.
pub proof fn lemma_gradient_len(colors: Seq<Rgb>)
    ensures
        gradient_spec(colors).len() == 1024,
{
}

} // verus!
