//! The mutable pixel surface every renderer draws into.
//!
//! A buffer holds `width * height` colors in row-major order, a
//! background color used by `clear` and returned for out-of-bounds
//! reads, and a remembered "current" color for the convenience form of
//! the fill operations.  All writes are clipped: drawing outside the
//! surface is never an error and never touches a pixel.

use vstd::prelude::*;
use vstd::pervasive::VecAdditionalExecFns;

verus! {

use crate::color::Color;
use crate::color::packed;

/// A `width * height` surface of colors, stored row-major.
pub struct FrameBuffer {
    pub width: usize,
    pub height: usize,
    pub buffer: Vec<Color>,
    pub background_color: Color,
    pub current_color: Color,
}

/// `p` with the rectangle `[x, x+w) x [y, y+h)` painted `c`, where `p`
/// is a row-major surface `fbw` pixels wide.  Clipping to the surface
/// is inherent: an index of `p` never names a pixel outside it.
pub open spec fn fill_rect(
    p: Seq<Color>,
    fbw: int,
    x: int,
    y: int,
    w: int,
    h: int,
    c: Color,
) -> Seq<Color> {
    Seq::new(
        p.len(),
        |i: int|
            if x <= i % fbw < x + w && y <= i / fbw < y + h {
                c
            } else {
                p[i]
            },
    )
}

/// `p` with the single pixel `(x, y)` painted `c`, if it lies on the
/// `fbw * fbh` surface; `p` unchanged otherwise.
pub open spec fn put_pixel(
    p: Seq<Color>,
    fbw: int,
    fbh: int,
    x: int,
    y: int,
    c: Color,
) -> Seq<Color> {
    if 0 <= x < fbw && 0 <= y < fbh {
        p.update(y * fbw + x, c)
    } else {
        p
    }
}

/// The row-major index of pixel `(x, y)` names that pixel and no other.
pub proof fn lemma_row_major_index(fbw: int, fbh: int, x: int, y: int)
    requires
        0 <= x < fbw,
        0 <= y < fbh,
    ensures
        0 <= y * fbw + x < fbw * fbh,
        (y * fbw + x) % fbw == x,
        (y * fbw + x) / fbw == y,
{
    assert(y * fbw + x < fbw * fbh) by (nonlinear_arith)
        requires
            0 <= x < fbw,
            0 <= y < fbh,
    ;
    assert(0 <= y * fbw + x) by (nonlinear_arith)
        requires
            0 <= x,
            0 <= y,
            0 < fbw,
    ;
    vstd::arithmetic::div_mod::lemma_fundamental_div_mod_converse(y * fbw + x, fbw, y, x);
}

impl FrameBuffer {
    /// The storage matches the stated dimensions.
    pub open spec fn wf(self) -> bool {
        self.buffer.len() == self.width * self.height
    }

    /// The color of pixel `(x, y)`, or the background color when the
    /// coordinates fall outside the surface.
    pub open spec fn color_at(self, x: int, y: int) -> Color {
        if 0 <= x < self.width && 0 <= y < self.height {
            self.buffer@[y * self.width + x]
        } else {
            self.background_color
        }
    }

    /// A fresh surface: every pixel, the background and the current
    /// color all start as opaque white.
    pub fn new(width: usize, height: usize) -> (fb: FrameBuffer)
        requires
            width * height <= usize::MAX,
        ensures
            fb.wf(),
            fb.width == width,
            fb.height == height,
            fb.background_color == (Color { r: 255, g: 255, b: 255 }),
            fb.current_color == fb.background_color,
            forall|i: int| 0 <= i < fb.buffer@.len() ==> fb.buffer@[i] == fb.background_color,
    {
        let default_color = Color::new(255, 255, 255);
        let n = width * height;
        let mut buffer: Vec<Color> = Vec::new();
        let mut i: usize = 0;
        while i < n
            invariant
                i <= n,
                buffer@.len() == i,
                forall|j: int| 0 <= j < i ==> buffer@[j] == default_color,
            decreases n - i,
        {
            buffer.push(default_color);
            i = i + 1;
        }
        FrameBuffer { width, height, buffer, background_color: default_color, current_color: default_color }
    }

    /// Overwrite every pixel with the background color, leaving a
    /// buffer indistinguishable from a fresh one with that background.
    pub fn clear(&mut self)
        requires
            old(self).wf(),
        ensures
            final(self).wf(),
            final(self).width == old(self).width,
            final(self).height == old(self).height,
            final(self).background_color == old(self).background_color,
            final(self).current_color == old(self).current_color,
            forall|i: int|
                0 <= i < final(self).buffer@.len()
                    ==> final(self).buffer@[i] == old(self).background_color,
    {
        let n = self.buffer.len();
        let bg = self.background_color;
        let mut i: usize = 0;
        while i < n
            invariant
                i <= n,
                self.buffer@.len() == n,
                self.width == old(self).width,
                self.height == old(self).height,
                self.background_color == old(self).background_color,
                self.current_color == old(self).current_color,
                bg == old(self).background_color,
                n == old(self).buffer@.len(),
                forall|j: int| 0 <= j < i ==> self.buffer@[j] == bg,
            decreases n - i,
        {
            self.buffer.set(i, bg);
            i = i + 1;
        }
    }

    /// Bounds-checked single-pixel write with an explicit color: a
    /// write outside the surface is silently ignored.
    pub fn set_pixel(&mut self, x: usize, y: usize, color: Color)
        requires
            old(self).wf(),
        ensures
            final(self).wf(),
            final(self).width == old(self).width,
            final(self).height == old(self).height,
            final(self).background_color == old(self).background_color,
            final(self).current_color == old(self).current_color,
            final(self).buffer@ == put_pixel(
                old(self).buffer@,
                old(self).width as int,
                old(self).height as int,
                x as int,
                y as int,
                color,
            ),
    {
        if x < self.width && y < self.height {
            let n = self.buffer.len();
            proof {
                lemma_row_major_index(self.width as int, self.height as int, x as int, y as int);
            }
            assert(y * self.width + x < n);
            let idx = self.width * y + x;
            self.buffer.set(idx, color);
        }
    }

    /// The single-pixel write in its remembered-color form.
    pub fn set_pixel_current(&mut self, x: usize, y: usize)
        requires
            old(self).wf(),
        ensures
            final(self).wf(),
            final(self).width == old(self).width,
            final(self).height == old(self).height,
            final(self).background_color == old(self).background_color,
            final(self).current_color == old(self).current_color,
            final(self).buffer@ == put_pixel(
                old(self).buffer@,
                old(self).width as int,
                old(self).height as int,
                x as int,
                y as int,
                old(self).current_color,
            ),
    {
        let color = self.current_color;
        self.set_pixel(x, y, color);
    }

    /// Fill the rectangle `[x, x+w) x [y, y+h)` with an explicit color,
    /// clipped to the surface.  A rectangle that starts at or beyond an
    /// edge draws nothing.
    pub fn fill_rectangle(&mut self, x: usize, y: usize, w: usize, h: usize, color: Color)
        requires
            old(self).wf(),
            x + w <= usize::MAX,
            y + h <= usize::MAX,
        ensures
            final(self).wf(),
            final(self).width == old(self).width,
            final(self).height == old(self).height,
            final(self).background_color == old(self).background_color,
            final(self).current_color == old(self).current_color,
            final(self).buffer@ == fill_rect(
                old(self).buffer@,
                old(self).width as int,
                x as int,
                y as int,
                w as int,
                h as int,
                color,
            ),
    {
        let ghost gw = self.width as int;
        let ghost target = fill_rect(old(self).buffer@, gw, x as int, y as int, w as int, h as int, color);
        if x >= self.width || y >= self.height || w == 0 || h == 0 {
            proof {
                assert forall|i: int| 0 <= i < old(self).buffer@.len() implies target[i]
                    == old(self).buffer@[i] by {
                    assert(self.width > 0 && self.height > 0) by (nonlinear_arith)
                        requires
                            self.width * self.height > 0,
                    ;
                    vstd::arithmetic::div_mod::lemma_mod_bound(i, gw);
                    lemma_div_bounds(i, gw, self.height as int);
                }
                assert(target =~= old(self).buffer@);
            }
            return ;
        }
        let x_end = if x + w < self.width { x + w } else { self.width };
        let y_end = if y + h < self.height { y + h } else { self.height };
        let fbw = self.width;
        let mut j = y;
        while j < y_end
            invariant
                old(self).wf(),
                self.width == old(self).width,
                self.height == old(self).height,
                self.background_color == old(self).background_color,
                self.current_color == old(self).current_color,
                self.buffer@.len() == old(self).buffer@.len(),
                fbw == self.width,
                gw == fbw as int,
                x < self.width,
                y <= j <= y_end,
                y < y_end <= self.height,
                x < x_end <= self.width,
                x_end as int == vstd::math::min((x + w) as int, self.width as int),
                y_end as int == vstd::math::min((y + h) as int, self.height as int),
                forall|i: int|
                    0 <= i < self.buffer@.len()
                        ==> self.buffer@[i] == (if x <= i % gw < x_end && y <= i / gw < j {
                        color
                    } else {
                        old(self).buffer@[i]
                    }),
            decreases y_end - j,
        {
            let mut i = x;
            while i < x_end
                invariant
                    old(self).wf(),
                    self.width == old(self).width,
                    self.height == old(self).height,
                    self.background_color == old(self).background_color,
                    self.current_color == old(self).current_color,
                    self.buffer@.len() == old(self).buffer@.len(),
                    fbw == self.width,
                    gw == fbw as int,
                    x <= i <= x_end,
                    x < self.width,
                    y <= j < y_end,
                    y < y_end <= self.height,
                    x < x_end <= self.width,
                    forall|k: int|
                        0 <= k < self.buffer@.len()
                            ==> self.buffer@[k] == (if (x <= k % gw < x_end && y <= k / gw < j) || (
                            k / gw == j && x <= k % gw < i) {
                            color
                        } else {
                            old(self).buffer@[k]
                        }),
                decreases x_end - i,
            {
                let n = self.buffer.len();
                proof {
                    lemma_row_major_index(fbw as int, self.height as int, i as int, j as int);
                }
                assert(fbw * j == j * fbw) by (nonlinear_arith);
                assert(fbw * j + i < n);
                let idx = fbw * j + i;
                self.buffer.set(idx, color);
                proof {
                    assert forall|k: int| 0 <= k < self.buffer@.len() implies self.buffer@[k] == (
                    if (x <= k % gw < x_end && y <= k / gw < j) || (k / gw == j && x <= k % gw < i
                        + 1) {
                        color
                    } else {
                        old(self).buffer@[k]
                    }) by {
                        if k != idx {
                            if k % gw == i && k / gw == j {
                                vstd::arithmetic::div_mod::lemma_fundamental_div_mod(k, gw);
                            }
                        }
                    }
                }
                i = i + 1;
            }
            j = j + 1;
        }
        proof {
            assert forall|i: int| 0 <= i < self.buffer@.len() implies self.buffer@[i]
                == target[i] by {
                vstd::arithmetic::div_mod::lemma_mod_bound(i, gw);
                lemma_div_bounds(i, gw, self.height as int);
            }
            assert(self.buffer@ =~= target);
        }
    }

    /// Fill a rectangle with the remembered current color.
    pub fn draw_rectangle(&mut self, x: usize, y: usize, w: usize, h: usize)
        requires
            old(self).wf(),
            x + w <= usize::MAX,
            y + h <= usize::MAX,
        ensures
            final(self).wf(),
            final(self).width == old(self).width,
            final(self).height == old(self).height,
            final(self).background_color == old(self).background_color,
            final(self).current_color == old(self).current_color,
            final(self).buffer@ == fill_rect(
                old(self).buffer@,
                old(self).width as int,
                x as int,
                y as int,
                w as int,
                h as int,
                old(self).current_color,
            ),
    {
        let color = self.current_color;
        self.fill_rectangle(x, y, w, h, color);
    }

    /// Change the color that `clear` and out-of-bounds reads use.
    pub fn set_background_color(&mut self, color: Color)
        ensures
            final(self).width == old(self).width,
            final(self).height == old(self).height,
            final(self).buffer == old(self).buffer,
            final(self).current_color == old(self).current_color,
            final(self).background_color == color,
    {
        self.background_color = color;
    }

    /// Change the remembered color used by the convenience fills.
    pub fn set_current_color(&mut self, color: Color)
        ensures
            final(self).width == old(self).width,
            final(self).height == old(self).height,
            final(self).buffer == old(self).buffer,
            final(self).background_color == old(self).background_color,
            final(self).current_color == color,
    {
        self.current_color = color;
    }

    /// The pixel's color, or the background color out of bounds —
    /// never an error.
    pub fn get_color(&self, x: usize, y: usize) -> (c: Color)
        requires
            self.wf(),
        ensures
            c == self.color_at(x as int, y as int),
    {
        if x < self.width && y < self.height {
            let n = self.buffer.len();
            proof {
                lemma_row_major_index(self.width as int, self.height as int, x as int, y as int);
            }
            assert(y * self.width + x < n);
            self.buffer[self.width * y + x]
        } else {
            self.background_color
        }
    }

    /// Flatten the surface to packed row-major `0x00RRGGBB` words for
    /// display or export.
    pub fn cast_buffer(&self) -> (out: Vec<u32>)
        ensures
            out@.len() == self.buffer@.len(),
            forall|i: int| 0 <= i < out@.len() ==> out@[i] == packed(self.buffer@[i]),
    {
        let mut out: Vec<u32> = Vec::new();
        let n = self.buffer.len();
        let mut i: usize = 0;
        while i < n
            invariant
                i <= n,
                n == self.buffer@.len(),
                out@.len() == i,
                forall|j: int| 0 <= j < i ==> out@[j] == packed(self.buffer@[j]),
            decreases n - i,
        {
            let h = self.buffer[i].to_hex();
            out.push(h);
            i = i + 1;
        }
        out
    }
}

/// After a clear, reading any in-bounds pixel gives exactly the
/// background color: a cleared buffer is indistinguishable from a
/// fresh allocation with that background.
pub proof fn lemma_cleared_reads_background(fb: FrameBuffer, x: int, y: int)
    requires
        fb.wf(),
        forall|i: int| 0 <= i < fb.buffer@.len() ==> fb.buffer@[i] == fb.background_color,
        0 <= x < fb.width,
        0 <= y < fb.height,
    ensures
        fb.color_at(x, y) == fb.background_color,
{
    lemma_row_major_index(fb.width as int, fb.height as int, x, y);
}

/// A rectangle fill writes exactly the pixels of the clipped rectangle
/// `[x, min(x+w, fbw)) x [y, min(y+h, fbh))`: a pixel inside it takes
/// the fill color and every other pixel of the surface keeps its own.
pub proof fn lemma_fill_rect_confined(
    p: Seq<Color>,
    fbw: int,
    fbh: int,
    x: int,
    y: int,
    w: int,
    h: int,
    c: Color,
    px: int,
    py: int,
)
    requires
        p.len() == fbw * fbh,
        0 <= px < fbw,
        0 <= py < fbh,
    ensures
        x <= px < x + w && y <= py < y + h ==> fill_rect(p, fbw, x, y, w, h, c)[py * fbw + px]
            == c,
        !(x <= px < x + w && y <= py < y + h) ==> fill_rect(p, fbw, x, y, w, h, c)[py * fbw + px]
            == p[py * fbw + px],
{
    lemma_row_major_index(fbw, fbh, px, py);
}

/// A row-major index on a `d * bound` surface has a row below `bound`.
pub proof fn lemma_div_bounds(i: int, d: int, bound: int)
    requires
        0 < d,
        0 <= i < d * bound,
    ensures
        0 <= i / d < bound,
{
    vstd::arithmetic::div_mod::lemma_div_pos_is_pos(i, d);
    assert(i / d < bound) by {
        if i / d >= bound {
            vstd::arithmetic::div_mod::lemma_fundamental_div_mod(i, d);
            vstd::arithmetic::div_mod::lemma_mod_bound(i, d);
            assert(d * (i / d) >= d * bound) by (nonlinear_arith)
                requires
                    0 < d,
                    i / d >= bound,
            ;
        }
    }
}

} // verus!
