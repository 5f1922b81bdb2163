//! What the two renderers share: the symbol color table, the scaled
//! drawing of a maze into a rectangle of the framebuffer, and the
//! block-aligned player marker.

use vstd::prelude::*;

verus! {

use crate::PIXEL_SCALE;
use crate::color::Color;
use crate::framebuffer::FrameBuffer;
use crate::framebuffer::fill_rect;
use crate::maze::MazeGrid;
use vstd::arithmetic::div_mod::lemma_fundamental_div_mod_converse;

/// Tuning values for the renderers.
pub struct RenderConfig {
    /// Distance advanced per march step, in sub-pixel units.
    pub step: i64,
    /// Calibration scalar of the perspective projection.
    pub projection_constant: i64,
    /// Edge length of the square minimap overlay, in pixels.
    pub minimap_size: usize,
}

/// The render-defined color of a cell symbol: the structural wall
/// variants and the start/goal markers have their own colors, any
/// other symbol falls back to the default wall color.
pub open spec fn cell_color(c: char) -> Color {
    if c == '-' {
        Color { r: 105, g: 105, b: 105 }
    } else if c == '|' {
        Color { r: 135, g: 135, b: 135 }
    } else if c == '+' {
        Color { r: 115, g: 115, b: 115 }
    } else if c == 'p' {
        Color { r: 255, g: 255, b: 0 }
    } else if c == 'g' {
        Color { r: 255, g: 165, b: 0 }
    } else {
        Color { r: 0, g: 50, b: 0 }
    }
}

/// The color of the player marker and of traced rays.
pub open spec fn marker_color() -> Color {
    Color { r: 255, g: 0, b: 0 }
}

/// Look a symbol up in the color table.
pub fn symbol_color(c: char) -> (r: Color)
    ensures
        r == cell_color(c),
{
    if c == '-' {
        Color::new(105, 105, 105)
    } else if c == '|' {
        Color::new(135, 135, 135)
    } else if c == '+' {
        Color::new(115, 115, 115)
    } else if c == 'p' {
        Color::new(255, 255, 0)
    } else if c == 'g' {
        Color::new(255, 165, 0)
    } else {
        Color::new(0, 50, 0)
    }
}

/// The first `n` cells of the grid, in row-major order, drawn as
/// `block * block` rectangles from the offset `(ox, oy)`.  A cell whose
/// rectangle would cross the framebuffer's edge is skipped whole.
pub open spec fn draw_cells(
    p: Seq<Color>,
    g: Seq<Seq<char>>,
    fbw: int,
    fbh: int,
    ox: int,
    oy: int,
    block: int,
    cols: int,
    n: int,
) -> Seq<Color>
    decreases n,
{
    if n <= 0 || cols <= 0 {
        p
    } else {
        let q = draw_cells(p, g, fbw, fbh, ox, oy, block, cols, n - 1);
        let row = (n - 1) / cols;
        let col = (n - 1) % cols;
        let x = ox + col * block;
        let y = oy + row * block;
        if x + block <= fbw && y + block <= fbh {
            fill_rect(q, fbw, x, y, block, block, cell_color(g[row][col]))
        } else {
            q
        }
    }
}

/// Draw the whole maze, scaled to `block` pixels per cell, with its
/// top-left cell at `(ox, oy)`.
pub fn draw_maze_cells(fb: &mut FrameBuffer, maze: &MazeGrid, ox: usize, oy: usize, block: usize)
    requires
        old(fb).wf(),
        maze.wf(),
        maze.spec_rows() <= 0x1_0000,
        maze.spec_cols() <= 0x1_0000,
        ox <= 0x1_0000,
        oy <= 0x1_0000,
        block <= 0x1_0000,
        old(fb).width <= 0x1_0000,
        old(fb).height <= 0x1_0000,
    ensures
        final(fb).wf(),
        final(fb).width == old(fb).width,
        final(fb).height == old(fb).height,
        final(fb).background_color == old(fb).background_color,
        final(fb).current_color == old(fb).current_color,
        final(fb).buffer@ == draw_cells(
            old(fb).buffer@,
            maze.grid(),
            old(fb).width as int,
            old(fb).height as int,
            ox as int,
            oy as int,
            block as int,
            maze.spec_cols(),
            maze.spec_rows() * maze.spec_cols(),
        ),
{
    let rows = maze.row_count();
    let cols = maze.col_count();
    let ghost g = maze.grid();
    let ghost fbw = old(fb).width as int;
    let ghost fbh = old(fb).height as int;
    let mut row: usize = 0;
    while row < rows
        invariant
            fb.wf(),
            old(fb).wf(),
            fb.width == old(fb).width,
            fb.height == old(fb).height,
            fb.background_color == old(fb).background_color,
            fb.current_color == old(fb).current_color,
            maze.wf(),
            g == maze.grid(),
            fbw == old(fb).width as int,
            fbh == old(fb).height as int,
            rows == maze.spec_rows(),
            cols == maze.spec_cols(),
            rows <= 0x1_0000,
            cols <= 0x1_0000,
            ox <= 0x1_0000,
            oy <= 0x1_0000,
            block <= 0x1_0000,
            old(fb).width <= 0x1_0000,
            old(fb).height <= 0x1_0000,
            row <= rows,
            fb.buffer@ == draw_cells(
                old(fb).buffer@,
                g,
                fbw,
                fbh,
                ox as int,
                oy as int,
                block as int,
                cols as int,
                row as int * cols as int,
            ),
        decreases rows - row,
    {
        let mut col: usize = 0;
        while col < cols
            invariant
                fb.wf(),
                old(fb).wf(),
                fb.width == old(fb).width,
                fb.height == old(fb).height,
                fb.background_color == old(fb).background_color,
                fb.current_color == old(fb).current_color,
                maze.wf(),
                g == maze.grid(),
                fbw == old(fb).width as int,
                fbh == old(fb).height as int,
                rows == maze.spec_rows(),
                cols == maze.spec_cols(),
                rows <= 0x1_0000,
                cols <= 0x1_0000,
                ox <= 0x1_0000,
                oy <= 0x1_0000,
                block <= 0x1_0000,
                old(fb).width <= 0x1_0000,
                old(fb).height <= 0x1_0000,
                row < rows,
                col <= cols,
                fb.buffer@ == draw_cells(
                    old(fb).buffer@,
                    g,
                    fbw,
                    fbh,
                    ox as int,
                    oy as int,
                    block as int,
                    cols as int,
                    row as int * cols as int + col as int,
                ),
            decreases cols - col,
        {
            let ghost n = row as int * cols as int + col as int;
            proof {
                assert(0 <= row as int * cols as int <= 0x1_0000_0000) by (nonlinear_arith)
                    requires
                        0 <= row <= 0x1_0000,
                        0 <= cols <= 0x1_0000,
                ;
                lemma_fundamental_div_mod_converse(n, cols as int, row as int, col as int);
            }
            let c = maze.at(row, col);
            let color = symbol_color(c);
            proof {
                assert(0 <= col as int * block as int <= 0x1_0000_0000) by (nonlinear_arith)
                    requires
                        0 <= col <= 0x1_0000,
                        0 <= block <= 0x1_0000,
                ;
                assert(0 <= row as int * block as int <= 0x1_0000_0000) by (nonlinear_arith)
                    requires
                        0 <= row <= 0x1_0000,
                        0 <= block <= 0x1_0000,
                ;
            }
            let x64 = (ox as u64) + (col as u64) * (block as u64);
            let y64 = (oy as u64) + (row as u64) * (block as u64);
            let b64 = block as u64;
            if x64 + b64 <= (fb.width as u64) && y64 + b64 <= (fb.height as u64) {
                let x = x64 as usize;
                let y = y64 as usize;
                fb.fill_rectangle(x, y, block, block, color);
            }
            col = col + 1;
        }
        proof {
            assert((row as int + 1) * cols as int == row as int * cols as int + cols as int)
                by (nonlinear_arith);
        }
        row = row + 1;
    }
    proof {
        if cols == 0 {
            assert(rows as int * cols as int == 0) by (nonlinear_arith)
                requires
                    cols as int == 0,
            ;
        }
    }
}

/// The block-aligned marker coordinate of a player position: the
/// position in whole blocks, rounded to the nearest block, scaled back
/// to pixels.  A negative position is clamped to the near edge.
pub open spec fn block_marker(pos: int, block: int) -> int {
    let unit = block * (PIXEL_SCALE as int);
    if pos < 0 {
        0
    } else {
        ((pos + unit / 2) / unit) * block
    }
}

/// Compute the block-aligned marker coordinate.
pub fn block_aligned(pos: i64, block: usize) -> (m: u64)
    requires
        1 <= block <= 0x1_0000,
        -0x4000_0000 <= pos <= 0x4000_0000,
    ensures
        m == block_marker(pos as int, block as int),
{
    if pos < 0 {
        0
    } else {
        let scale64: u64 = PIXEL_SCALE as u64;
        assert(scale64 == 1000);
        let unit = (block as u64) * scale64;
        let num = (pos as u64) + unit / 2;
        let q = num / unit;
        proof {
            vstd::arithmetic::div_mod::lemma_div_is_ordered_by_denominator(
                num as int,
                1,
                unit as int,
            );
            vstd::arithmetic::div_mod::lemma_div_basics(num as int);
            assert(0 <= q as int * block as int <= 0x8000_0000_0000_0000) by (nonlinear_arith)
                requires
                    0 <= q <= 0x1_0000_0000,
                    0 <= block <= 0x1_0000,
            ;
        }
        q * (block as u64)
    }
}

} // verus!
