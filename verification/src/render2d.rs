//! The top-down debug view: the maze drawn to scale, a block-aligned
//! player marker, and a fan of traced rays showing what the player
//! would see.

use vstd::prelude::*;

verus! {

use crate::caster::RayDir;
use crate::caster::cast_ray;
use crate::caster::ray_scene;
use crate::caster::scene_of;
use crate::caster::trace_fan;
use crate::caster::traced;
use crate::caster::valid_dir;
use crate::color::Color;
use crate::framebuffer::FrameBuffer;
use crate::framebuffer::put_pixel;
use crate::maze::MazeGrid;
use crate::player::Player;
use crate::render::RenderConfig;
use crate::render::block_marker;
use crate::render::block_aligned;
use crate::render::draw_cells;
use crate::render::draw_maze_cells;
use crate::render::marker_color;

/// What the top-down view leaves on the surface: every maze cell as a
/// scaled rectangle, the block-aligned player marker, then the traced
/// fan of rays, in that order.
pub open spec fn rendered_2d(
    p: Seq<Color>,
    g: Seq<Seq<char>>,
    fbw: int,
    fbh: int,
    px: int,
    py: int,
    dirs: Seq<RayDir>,
    block: int,
) -> Seq<Color> {
    let cols: int = if g.len() == 0 {
        0
    } else {
        g[0].len() as int
    };
    let rows: int = g.len() as int;
    let cells = draw_cells(p, g, fbw, fbh, 0, 0, block, cols, rows * cols);
    let marked = put_pixel(
        cells,
        fbw,
        fbh,
        block_marker(px, block),
        block_marker(py, block),
        marker_color(),
    );
    trace_fan(marked, g, fbw, fbh, px, py, dirs, block, marker_color(), dirs.len() as int)
}

/// Draw the top-down view.  The cell size is the framebuffer's width
/// divided by the maze's column count; one ray is traced for each
/// caller-supplied direction, fanned from the player's position.
pub fn render2d(
    fb: &mut FrameBuffer,
    maze: &MazeGrid,
    player: &Player,
    dirs: &Vec<RayDir>,
    cfg: &RenderConfig,
) -> (block: usize)
    requires
        old(fb).wf(),
        maze.wf(),
        1 <= maze.spec_cols() <= old(fb).width,
        maze.spec_rows() <= 0x1_0000,
        0 < old(fb).width <= 0x1_0000,
        0 < old(fb).height <= 0x1_0000,
        -0x4000_0000 <= player.pos_x <= 0x4000_0000,
        -0x4000_0000 <= player.pos_y <= 0x4000_0000,
        1 <= cfg.step <= 0x10_0000,
        forall|i: int| 0 <= i < dirs@.len() ==> valid_dir(#[trigger] dirs@[i], cfg.step as int),
    ensures
        final(fb).wf(),
        final(fb).width == old(fb).width,
        final(fb).height == old(fb).height,
        final(fb).background_color == old(fb).background_color,
        final(fb).current_color == old(fb).current_color,
        block == old(fb).width as int / maze.spec_cols(),
        final(fb).buffer@ == rendered_2d(
            old(fb).buffer@,
            maze.grid(),
            old(fb).width as int,
            old(fb).height as int,
            player.pos_x as int,
            player.pos_y as int,
            dirs@,
            block as int,
        ),
{
    let cols = maze.col_count();
    let block = fb.width / cols;
    proof {
        vstd::arithmetic::div_mod::lemma_div_by_self(cols as int);
        vstd::arithmetic::div_mod::lemma_div_is_ordered(
            cols as int,
            fb.width as int,
            cols as int,
        );
        vstd::arithmetic::div_mod::lemma_div_is_ordered_by_denominator(
            fb.width as int,
            1,
            cols as int,
        );
        vstd::arithmetic::div_mod::lemma_div_basics(fb.width as int);
    }
    let ghost g = maze.grid();
    let ghost fbw = old(fb).width as int;
    let ghost fbh = old(fb).height as int;
    draw_maze_cells(fb, maze, 0, 0, block);
    let ghost cells = fb.buffer@;
    let mx = block_aligned(player.pos_x, block);
    let my = block_aligned(player.pos_y, block);
    let red = crate::color::Color::new(255, 0, 0);
    if mx < fb.width as u64 && my < fb.height as u64 {
        fb.set_pixel(mx as usize, my as usize, red);
    }
    proof {
        assert(fb.buffer@ == put_pixel(
            cells,
            fbw,
            fbh,
            block_marker(player.pos_x as int, block as int),
            block_marker(player.pos_y as int, block as int),
            marker_color(),
        ));
    }
    let ghost marked = fb.buffer@;
    let n = dirs.len();
    let mut i: usize = 0;
    while i < n
        invariant
            fb.wf(),
            old(fb).wf(),
            fb.width == old(fb).width,
            fb.height == old(fb).height,
            fb.background_color == old(fb).background_color,
            fb.current_color == old(fb).current_color,
            maze.wf(),
            g == maze.grid(),
            fbw == old(fb).width as int,
            fbh == old(fb).height as int,
            0 < old(fb).width <= 0x1_0000,
            0 < old(fb).height <= 0x1_0000,
            -0x4000_0000 <= player.pos_x <= 0x4000_0000,
            -0x4000_0000 <= player.pos_y <= 0x4000_0000,
            1 <= cfg.step <= 0x10_0000,
            1 <= block,
            n == dirs@.len(),
            forall|j: int| 0 <= j < dirs@.len() ==> valid_dir(#[trigger] dirs@[j], cfg.step as int),
            i <= n,
            red == marker_color(),
            fb.buffer@ == trace_fan(
                marked,
                g,
                fbw,
                fbh,
                player.pos_x as int,
                player.pos_y as int,
                dirs@,
                block as int,
                marker_color(),
                i as int,
            ),
        decreases n - i,
    {
        let d = dirs[i];
        let ghost prefb = *fb;
        cast_ray(fb, maze, player, d, cfg.step, block, true, red);
        proof {
            let s = ray_scene(
                g,
                fbw,
                fbh,
                player.pos_x as int,
                player.pos_y as int,
                dirs@[i as int],
                block as int,
            );
            assert(scene_of(prefb, *maze, *player, d, block as int) == s);
            assert(fb.buffer@ == traced(prefb.buffer@, s, marker_color()));
        }
        i = i + 1;
    }
    block
}

} // verus!
