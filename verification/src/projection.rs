//! Perspective projection of wall heights, and the minimap scaling.

use vstd::prelude::*;

verus! {

use crate::PIXEL_SCALE;
use vstd::arithmetic::div_mod::lemma_div_is_ordered_by_denominator;
use vstd::arithmetic::div_mod::lemma_div_multiples_vanish;
use vstd::arithmetic::mul::lemma_mul_nonnegative;

/// The projected height, in pixels, of a wall strip seen at the given
/// distance (sub-pixel units): half the screen height over the
/// distance, scaled by the projection constant.  A degenerate distance
/// is clamped to one sub-pixel unit so the height is always finite.
pub open spec fn projected_height(hh: int, dist: int, dpp: int) -> int {
    (hh * dpp * (PIXEL_SCALE as int)) / (if dist < 1 {
        1
    } else {
        dist
    })
}

/// First row of the wall strip for a projected height: half the screen
/// height minus half the wall height, clamped at the top edge.
pub open spec fn strip_top(hh: int, wh: int) -> int {
    if wh / 2 >= hh {
        0
    } else {
        hh - wh / 2
    }
}

/// One past the last row of the wall strip.
pub open spec fn strip_bottom(hh: int, wh: int) -> int {
    hh + wh / 2
}

/// The texture row sampled at screen row `y` of a strip: the fraction
/// of the strip above `y`, mapped into the texture's height and
/// clamped to its last row.
pub open spec fn tex_row(y: int, top: int, wh: int, texh: int) -> int {
    let t = (y - top) * texh / (if wh < 1 {
        1
    } else {
        wh
    });
    if t < texh - 1 {
        t
    } else {
        texh - 1
    }
}

/// Compute the projected wall height for one ray.
pub fn wall_height(hh: usize, dist: i64, dpp: i64) -> (wh: u64)
    requires
        hh <= 0x1_0000,
        0 <= dpp <= 0x1_0000,
    ensures
        wh == projected_height(hh as int, dist as int, dpp as int),
        wh <= hh * dpp * (PIXEL_SCALE as int),
{
    let d = if dist < 1 {
        1
    } else {
        dist
    };
    proof {
        assert(0 <= hh as int * dpp as int <= 0x1_0000_0000) by (nonlinear_arith)
            requires
                0 <= hh <= 0x1_0000,
                0 <= dpp <= 0x1_0000,
        ;
    }
    let num = (hh as i64) * dpp * PIXEL_SCALE;
    let q = (num as u64) / (d as u64);
    proof {
        lemma_mul_nonnegative(hh as int, dpp as int);
        lemma_div_is_ordered_by_denominator(num as int, 1, d as int);
        vstd::arithmetic::div_mod::lemma_div_basics(num as int);
    }
    q
}

/// Projected wall height is monotonically non-increasing in the hit
/// distance, for a fixed screen half-height and projection constant.
pub proof fn lemma_projection_monotonic(hh: int, dpp: int, d1: int, d2: int)
    requires
        0 <= hh,
        0 <= dpp,
        d1 <= d2,
    ensures
        projected_height(hh, d2, dpp) <= projected_height(hh, d1, dpp),
{
    let num = hh * dpp * (PIXEL_SCALE as int);
    lemma_mul_nonnegative(hh, dpp);
    lemma_mul_nonnegative(hh * dpp, PIXEL_SCALE as int);
    let c1 = if d1 < 1 {
        1
    } else {
        d1
    };
    let c2 = if d2 < 1 {
        1
    } else {
        d2
    };
    lemma_div_is_ordered_by_denominator(num, c1, c2);
}

/// The minimap offset of a position: the position's fraction of a main
/// maze block, scaled by the minimap's block size.  A negative
/// position is clamped to the minimap's corner.
pub open spec fn minimap_offset(pos: int, block: int, mini_block: int) -> int {
    if pos < 0 {
        0
    } else {
        (pos * mini_block) / (block * (PIXEL_SCALE as int))
    }
}

/// Compute the minimap offset of a player coordinate.
pub fn minimap_marker_offset(pos: i64, block: usize, mini_block: usize) -> (o: u64)
    requires
        1 <= block <= 0x1_0000,
        mini_block <= 0x1_0000,
        -0x4000_0000 <= pos <= 0x4000_0000,
    ensures
        o == minimap_offset(pos as int, block as int, mini_block as int),
        o <= 0x4000_0000_0000_0000,
{
    if pos < 0 {
        0
    } else {
        proof {
            assert(0 <= pos as int * mini_block as int <= 0x4000_0000_0000_0000)
                by (nonlinear_arith)
                requires
                    0 <= pos <= 0x4000_0000,
                    0 <= mini_block <= 0x1_0000,
            ;
        }
        let num = (pos as u64) * (mini_block as u64);
        let scale64: u64 = PIXEL_SCALE as u64;
        assert(scale64 == 1000);
        let den = (block as u64) * scale64;
        proof {
            lemma_div_is_ordered_by_denominator(num as int, 1, den as int);
            vstd::arithmetic::div_mod::lemma_div_basics(num as int);
        }
        num / den
    }
}

/// The minimap marker scales by exactly the ratio of the minimap's
/// block size to the main block size: a player standing `c` whole
/// blocks from the origin is marked `c` minimap blocks from the
/// minimap's corner.
pub proof fn lemma_minimap_marker_scales(c: int, block: int, mini_block: int)
    requires
        0 <= c,
        1 <= block,
        0 <= mini_block,
    ensures
        minimap_offset(c * block * (PIXEL_SCALE as int), block, mini_block) == c * mini_block,
{
    let unit = block * (PIXEL_SCALE as int);
    assert(c * block * (PIXEL_SCALE as int) >= 0) by (nonlinear_arith)
        requires
            0 <= c,
            1 <= block,
    ;
    assert(c * block * (PIXEL_SCALE as int) * mini_block == (block * (PIXEL_SCALE as int)) * (c
        * mini_block)) by (nonlinear_arith);
    lemma_div_multiples_vanish(c * mini_block, unit);
}

} // verus!
