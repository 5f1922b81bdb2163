//! The perspective view: one ray per screen column, a sky and a floor
//! band, texture-sampled wall strips whose height falls with the hit
//! distance, and a scaled minimap overlay in the lower-right corner.

use vstd::prelude::*;

verus! {

use crate::PIXEL_SCALE;
use crate::caster::RayDir;
use crate::caster::cast_ray;
use crate::caster::ray_distance;
use crate::caster::ray_scene;
use crate::caster::scene_of;
use crate::caster::lemma_stop_steps;
use crate::caster::valid_dir;
use crate::color::Color;
use crate::framebuffer::FrameBuffer;
use crate::framebuffer::fill_rect;
use crate::framebuffer::lemma_row_major_index;
use crate::framebuffer::put_pixel;
use crate::maze::MazeGrid;
use crate::player::Player;
use crate::projection::minimap_offset;
use crate::projection::minimap_marker_offset;
use crate::projection::projected_height;
use crate::projection::strip_bottom;
use crate::projection::strip_top;
use crate::projection::tex_row;
use crate::projection::wall_height;
use crate::render::RenderConfig;
use crate::render::draw_cells;
use crate::render::draw_maze_cells;
use crate::render::marker_color;
use crate::texture::Texture;

/// The sky color of the upper half of the view.
pub open spec fn sky_color() -> Color {
    Color { r: 0, g: 0, b: 50 }
}

/// The floor color of the lower half of the view.
pub open spec fn floor_color() -> Color {
    Color { r: 0, g: 50, b: 0 }
}

/// The backdrop of the minimap overlay.
pub open spec fn minimap_bg_color() -> Color {
    Color { r: 0, g: 0, b: 0 }
}

/// A luminance sample replicated across the three channels.
pub open spec fn gray(v: u8) -> Color {
    Color { r: v, g: v, b: v }
}

/// One wall strip: in column `col`, the rows of the projected strip
/// take the texture's samples, the vertical texture coordinate scaled
/// from the position within the strip and the horizontal one being the
/// screen column itself.
pub open spec fn wall_strip(
    p: Seq<Color>,
    fbw: int,
    col: int,
    hh: int,
    wh: int,
    tex: Texture,
) -> Seq<Color> {
    Seq::new(
        p.len(),
        |i: int|
            {
                let x = i % fbw;
                let y = i / fbw;
                if x == col && strip_top(hh, wh) <= y < strip_bottom(hh, wh) {
                    gray(tex.texel(col, tex_row(y, strip_top(hh, wh), wh, tex.height as int)))
                } else {
                    p[i]
                }
            },
    )
}

/// The first `n` columns' wall strips, painted in order; the strip of
/// column `i` is projected from the stopping distance of ray `i`.
pub open spec fn paint_strips(
    p: Seq<Color>,
    g: Seq<Seq<char>>,
    fbw: int,
    fbh: int,
    px: int,
    py: int,
    dirs: Seq<RayDir>,
    block: int,
    step: int,
    hh: int,
    dpp: int,
    tex: Texture,
    n: int,
) -> Seq<Color>
    decreases n,
{
    if n <= 0 {
        p
    } else {
        let q = paint_strips(p, g, fbw, fbh, px, py, dirs, block, step, hh, dpp, tex, n - 1);
        let s = ray_scene(g, fbw, fbh, px, py, dirs[n - 1], block);
        wall_strip(q, fbw, n - 1, hh, projected_height(hh, ray_distance(s, step), dpp), tex)
    }
}

/// What the perspective view leaves on the surface: the sky band, the
/// floor band, one wall strip per column, then the minimap backdrop,
/// the minimap's scaled maze, and the minimap player marker.
pub open spec fn rendered_3d(
    p: Seq<Color>,
    g: Seq<Seq<char>>,
    fbw: int,
    fbh: int,
    px: int,
    py: int,
    dirs: Seq<RayDir>,
    block: int,
    step: int,
    dpp: int,
    tex: Texture,
    mm: int,
) -> Seq<Color> {
    let cols: int = if g.len() == 0 {
        0
    } else {
        g[0].len() as int
    };
    let rows: int = g.len() as int;
    let hh = fbh / 2;
    let sky = fill_rect(p, fbw, 0, 0, fbw, hh, sky_color());
    let floor = fill_rect(sky, fbw, 0, hh, fbw, fbh - hh, floor_color());
    let walls = paint_strips(
        floor,
        g,
        fbw,
        fbh,
        px,
        py,
        dirs,
        block,
        step,
        hh,
        dpp,
        tex,
        dirs.len() as int,
    );
    let mmx = fbw - mm;
    let mmy = fbh - mm;
    let mb: int = if cols == 0 {
        0
    } else {
        mm / cols
    };
    let bg = fill_rect(walls, fbw, mmx, mmy, mm, mm, minimap_bg_color());
    let cells = draw_cells(bg, g, fbw, fbh, mmx, mmy, mb, cols, rows * cols);
    put_pixel(
        cells,
        fbw,
        fbh,
        mmx + minimap_offset(px, block, mb),
        mmy + minimap_offset(py, block, mb),
        marker_color(),
    )
}

/// Draw the perspective view.  One ray is cast per screen column along
/// the caller-supplied directions; nothing is traced.
pub fn render3d(
    fb: &mut FrameBuffer,
    maze: &MazeGrid,
    player: &Player,
    dirs: &Vec<RayDir>,
    texture: &Texture,
    cfg: &RenderConfig,
) -> (block: usize)
    requires
        old(fb).wf(),
        maze.wf(),
        1 <= maze.spec_cols() <= old(fb).width,
        maze.spec_rows() <= 0x1_0000,
        0 < old(fb).width <= 0x1_0000,
        0 < old(fb).height <= 0x1_0000,
        -0x4000_0000 <= player.pos_x <= 0x4000_0000,
        -0x4000_0000 <= player.pos_y <= 0x4000_0000,
        1 <= cfg.step <= 0x10_0000,
        0 <= cfg.projection_constant <= 0x1_0000,
        cfg.minimap_size <= old(fb).width,
        cfg.minimap_size <= old(fb).height,
        dirs@.len() == old(fb).width,
        forall|i: int| 0 <= i < dirs@.len() ==> valid_dir(#[trigger] dirs@[i], cfg.step as int),
        texture.wf(),
    ensures
        final(fb).wf(),
        final(fb).width == old(fb).width,
        final(fb).height == old(fb).height,
        final(fb).background_color == old(fb).background_color,
        final(fb).current_color == old(fb).current_color,
        block == old(fb).width as int / maze.spec_cols(),
        final(fb).buffer@ == rendered_3d(
            old(fb).buffer@,
            maze.grid(),
            old(fb).width as int,
            old(fb).height as int,
            player.pos_x as int,
            player.pos_y as int,
            dirs@,
            block as int,
            cfg.step as int,
            cfg.projection_constant as int,
            *texture,
            cfg.minimap_size as int,
        ),
{
    let cols = maze.col_count();
    let w = fb.width;
    let h = fb.height;
    let block = w / cols;
    proof {
        vstd::arithmetic::div_mod::lemma_div_by_self(cols as int);
        vstd::arithmetic::div_mod::lemma_div_is_ordered(cols as int, w as int, cols as int);
        vstd::arithmetic::div_mod::lemma_div_is_ordered_by_denominator(w as int, 1, cols as int);
        vstd::arithmetic::div_mod::lemma_div_basics(w as int);
    }
    let ghost g = maze.grid();
    let ghost fbw = w as int;
    let ghost fbh = h as int;
    let hh = h / 2;
    let sky = Color::new(0, 0, 50);
    let floor = Color::new(0, 50, 0);
    fb.fill_rectangle(0, 0, w, hh, sky);
    fb.fill_rectangle(0, hh, w, h - hh, floor);
    let ghost after_floor = fb.buffer@;
    let red = Color::new(255, 0, 0);

    let n = w;
    let mut heights: Vec<u64> = Vec::new();
    let mut i: usize = 0;
    while i < n
        invariant
            fb.wf(),
            old(fb).wf(),
            fb.width == old(fb).width,
            fb.height == old(fb).height,
            fb.background_color == old(fb).background_color,
            fb.current_color == old(fb).current_color,
            fb.buffer@ == after_floor,
            maze.wf(),
            g == maze.grid(),
            fbw == old(fb).width as int,
            fbh == old(fb).height as int,
            w == old(fb).width,
            h == old(fb).height,
            hh == fbh / 2,
            0 < w <= 0x1_0000,
            0 < h <= 0x1_0000,
            -0x4000_0000 <= player.pos_x <= 0x4000_0000,
            -0x4000_0000 <= player.pos_y <= 0x4000_0000,
            1 <= cfg.step <= 0x10_0000,
            0 <= cfg.projection_constant <= 0x1_0000,
            1 <= block,
            n == w,
            n == dirs@.len(),
            forall|j: int| 0 <= j < dirs@.len() ==> valid_dir(#[trigger] dirs@[j], cfg.step as int),
            i <= n,
            heights@.len() == i,
            forall|j: int|
                0 <= j < i ==> heights@[j] == projected_height(
                    fbh / 2,
                    ray_distance(
                        ray_scene(
                            g,
                            fbw,
                            fbh,
                            player.pos_x as int,
                            player.pos_y as int,
                            dirs@[j],
                            block as int,
                        ),
                        cfg.step as int,
                    ),
                    cfg.projection_constant as int,
                ),
            forall|j: int| 0 <= j < i ==> heights@[j] <= 0x800_0000_0000,
        decreases n - i,
    {
        let d = dirs[i];
        let ghost prefb = *fb;
        let r = cast_ray(fb, maze, player, d, cfg.step, block, false, red);
        proof {
            let s = ray_scene(
                g,
                fbw,
                fbh,
                player.pos_x as int,
                player.pos_y as int,
                dirs@[i as int],
                block as int,
            );
            assert(scene_of(prefb, *maze, *player, d, block as int) == s);
            let k = r.distance as int / cfg.step as int;
            vstd::arithmetic::div_mod::lemma_div_pos_is_pos(r.distance as int, cfg.step as int);
            lemma_stop_steps(s, k);
            assert(ray_distance(s, cfg.step as int) == r.distance as int);
        }
        let wh = wall_height(hh, r.distance, cfg.projection_constant);
        proof {
            assert(PIXEL_SCALE == 1000);
            assert(hh as int * cfg.projection_constant as int * (PIXEL_SCALE as int)
                <= 0x800_0000_0000) by (nonlinear_arith)
                requires
                    0 <= hh <= 0x1_0000,
                    0 <= cfg.projection_constant <= 0x1_0000,
                    PIXEL_SCALE == 1000,
            ;
        }
        heights.push(wh);
        i = i + 1;
    }

    let mut col: usize = 0;
    while col < n
        invariant
            fb.wf(),
            old(fb).wf(),
            fb.width == old(fb).width,
            fb.height == old(fb).height,
            fb.background_color == old(fb).background_color,
            fb.current_color == old(fb).current_color,
            maze.wf(),
            g == maze.grid(),
            fbw == old(fb).width as int,
            fbh == old(fb).height as int,
            w == old(fb).width,
            h == old(fb).height,
            hh == fbh / 2,
            0 < w <= 0x1_0000,
            0 < h <= 0x1_0000,
            texture.wf(),
            n == w,
            n == dirs@.len(),
            heights@.len() == n,
            forall|j: int|
                0 <= j < n ==> heights@[j] == projected_height(
                    fbh / 2,
                    ray_distance(
                        ray_scene(
                            g,
                            fbw,
                            fbh,
                            player.pos_x as int,
                            player.pos_y as int,
                            dirs@[j],
                            block as int,
                        ),
                        cfg.step as int,
                    ),
                    cfg.projection_constant as int,
                ),
            forall|j: int| 0 <= j < n ==> heights@[j] <= 0x800_0000_0000,
            col <= n,
            fb.buffer@ == paint_strips(
                after_floor,
                g,
                fbw,
                fbh,
                player.pos_x as int,
                player.pos_y as int,
                dirs@,
                block as int,
                cfg.step as int,
                fbh / 2,
                cfg.projection_constant as int,
                *texture,
                col as int,
            ),
        decreases n - col,
    {
        let ghost qcol = fb.buffer@;
        let wh = heights[col];
        let hh64 = hh as u64;
        let top64: u64 = if wh / 2 >= hh64 {
            0
        } else {
            hh64 - wh / 2
        };
        let bot64: u64 = hh64 + wh / 2;
        let y_end64: u64 = if bot64 < h as u64 {
            bot64
        } else {
            h as u64
        };
        let top = top64 as usize;
        let y_end = y_end64 as usize;
        let dv: u64 = if wh < 1 {
            1
        } else {
            wh
        };
        let texh = texture.height;
        let mut y = top;
        while y < y_end
            invariant
                fb.wf(),
                fb.width == old(fb).width,
                fb.height == old(fb).height,
                fb.background_color == old(fb).background_color,
                fb.current_color == old(fb).current_color,
                fb.buffer@.len() == qcol.len(),
                qcol.len() == fb.width * fb.height,
                w == old(fb).width,
                h == old(fb).height,
                fbw == w as int,
                fbh == h as int,
                hh == fbh / 2,
                0 < w <= 0x1_0000,
                0 < h <= 0x1_0000,
                texture.wf(),
                texh == texture.height,
                col < n,
                n == w,
                top as int == strip_top(fbh / 2, wh as int),
                y_end as int == vstd::math::min(strip_bottom(fbh / 2, wh as int), fbh),
                dv as int == (if (wh as int) < 1 {
                    1int
                } else {
                    wh as int
                }),
                top <= y <= y_end,
                y_end <= h,
                forall|idx: int|
                    0 <= idx < fb.buffer@.len() ==> fb.buffer@[idx] == (if idx % fbw == col as int
                        && top <= idx / fbw < y {
                        gray(
                            texture.texel(
                                col as int,
                                tex_row(idx / fbw, top as int, wh as int, texh as int),
                            ),
                        )
                    } else {
                        qcol[idx]
                    }),
            decreases y_end - y,
        {
            proof {
                assert((y - top) as int * texh as int <= 0x1_0000_0000) by (nonlinear_arith)
                    requires
                        0 <= (y - top) as int <= 0x1_0000,
                        0 <= texh <= 0x1_0000,
                ;
            }
            let t64 = ((y - top) as u64) * (texh as u64) / dv;
            let ty: usize = if t64 < (texh as u64) - 1 {
                t64 as usize
            } else {
                texh - 1
            };
            let v = texture.sample(col, ty);
            let c = Color::new(v, v, v);
            fb.set_pixel(col, y, c);
            proof {
                lemma_row_major_index(fbw, fbh, col as int, y as int);
                let idx0 = y as int * fbw + col as int;
                assert(ty as int == tex_row(y as int, top as int, wh as int, texh as int));
                assert forall|idx: int| 0 <= idx < fb.buffer@.len() implies fb.buffer@[idx] == (
                if idx % fbw == col as int && top <= idx / fbw < y + 1 {
                    gray(
                        texture.texel(
                            col as int,
                            tex_row(idx / fbw, top as int, wh as int, texh as int),
                        ),
                    )
                } else {
                    qcol[idx]
                }) by {
                    if idx != idx0 {
                        if idx % fbw == col as int && idx / fbw == y as int {
                            vstd::arithmetic::div_mod::lemma_fundamental_div_mod(idx, fbw);
                        }
                    }
                }
            }
            y = y + 1;
        }
        proof {
            let target = wall_strip(qcol, fbw, col as int, fbh / 2, wh as int, *texture);
            assert forall|idx: int| 0 <= idx < fb.buffer@.len() implies fb.buffer@[idx]
                == target[idx] by {
                vstd::arithmetic::div_mod::lemma_mod_bound(idx, fbw);
                crate::framebuffer::lemma_div_bounds(idx, fbw, fbh);
            }
            assert(fb.buffer@ =~= target);
            assert(wh as int == projected_height(
                fbh / 2,
                ray_distance(
                    ray_scene(
                        g,
                        fbw,
                        fbh,
                        player.pos_x as int,
                        player.pos_y as int,
                        dirs@[col as int],
                        block as int,
                    ),
                    cfg.step as int,
                ),
                cfg.projection_constant as int,
            ));
        }
        col = col + 1;
    }

    let mm = cfg.minimap_size;
    let mmx = w - mm;
    let mmy = h - mm;
    let black = Color::new(0, 0, 0);
    fb.fill_rectangle(mmx, mmy, mm, mm, black);
    let mb = mm / cols;
    proof {
        vstd::arithmetic::div_mod::lemma_div_is_ordered_by_denominator(mm as int, 1, cols as int);
        vstd::arithmetic::div_mod::lemma_div_basics(mm as int);
    }
    draw_maze_cells(fb, maze, mmx, mmy, mb);
    let ghost after_cells = fb.buffer@;
    let ox = minimap_marker_offset(player.pos_x, block, mb);
    let oy = minimap_marker_offset(player.pos_y, block, mb);
    let mx64 = (mmx as u64) + ox;
    let my64 = (mmy as u64) + oy;
    if mx64 < w as u64 && my64 < h as u64 {
        fb.set_pixel(mx64 as usize, my64 as usize, red);
    }
    proof {
        assert(fb.buffer@ == put_pixel(
            after_cells,
            fbw,
            fbh,
            mmx as int + minimap_offset(player.pos_x as int, block as int, mb as int),
            mmy as int + minimap_offset(player.pos_y as int, block as int, mb as int),
            marker_color(),
        ));
    }
    block
}

} // verus!
