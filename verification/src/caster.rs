//! The ray-marching core.
//!
//! A ray starts at the player's position and advances in fixed steps
//! along a caller-supplied direction vector.  At every step the
//! candidate point is tested: outside the framebuffer's pixel bounds
//! the march ends with no hit; outside the maze's extents but still
//! inside the framebuffer it continues (the maze need not fill the
//! framebuffer — this asymmetry is deliberate); on a non-open cell it
//! ends with that cell's symbol and the distance traveled.  The 2D
//! visualizer may ask for the traversed pixels to be painted.

use vstd::prelude::*;

verus! {

use crate::PIXEL_SCALE;
use crate::color::Color;
use crate::framebuffer::FrameBuffer;
use crate::framebuffer::lemma_row_major_index;
use crate::maze::MazeGrid;
use crate::maze::OPEN_CELL;
use crate::player::Player;

/// The result of one ray cast: the distance traveled, in sub-pixel
/// units, and the symbol of the cell that stopped the ray — the open
/// symbol when the ray left the framebuffer without hitting a wall.
pub struct Intersect {
    pub distance: i64,
    pub impact: char,
}

/// A ray's per-step displacement, in sub-pixel units.
#[derive(Clone, Copy, PartialEq, Eq, Structural, Debug)]
pub struct RayDir {
    pub x: i64,
    pub y: i64,
}

/// Everything one ray march reads, as mathematical values: the grid,
/// the framebuffer extents in pixels, the origin and the per-step
/// displacement in sub-pixel units, and the cell size in pixels.
pub struct RayScene {
    pub grid: Seq<Seq<char>>,
    pub fbw: int,
    pub fbh: int,
    pub px: int,
    pub py: int,
    pub sx: int,
    pub sy: int,
    pub block: int,
}

/// The scene a concrete cast reads.
pub open spec fn scene_of(
    fb: FrameBuffer,
    maze: MazeGrid,
    player: Player,
    dir: RayDir,
    block: int,
) -> RayScene {
    RayScene {
        grid: maze.grid(),
        fbw: fb.width as int,
        fbh: fb.height as int,
        px: player.pos_x as int,
        py: player.pos_y as int,
        sx: dir.x as int,
        sy: dir.y as int,
        block: block,
    }
}

/// Machine limits a scene must respect: extents that keep every
/// sub-pixel coordinate and distance well inside a 64-bit word, a
/// positive cell size, and a direction that actually moves.
pub open spec fn scene_wf(s: RayScene) -> bool {
    &&& 0 < s.fbw <= 0x1_0000
    &&& 0 < s.fbh <= 0x1_0000
    &&& -0x4000_0000 <= s.px <= 0x4000_0000
    &&& -0x4000_0000 <= s.py <= 0x4000_0000
    &&& -0x10_0000 <= s.sx <= 0x10_0000
    &&& -0x10_0000 <= s.sy <= 0x10_0000
    &&& (s.sx != 0 || s.sy != 0)
    &&& 1 <= s.block
}

/// The candidate point's x coordinate after `k` steps, sub-pixel units.
pub open spec fn ray_px_x(s: RayScene, k: int) -> int {
    s.px + k * s.sx
}

/// The candidate point's y coordinate after `k` steps, sub-pixel units.
pub open spec fn ray_px_y(s: RayScene, k: int) -> int {
    s.py + k * s.sy
}

/// The candidate point after `k` steps lies on the framebuffer.
pub open spec fn ray_in_fb(s: RayScene, k: int) -> bool {
    &&& 0 <= ray_px_x(s, k) < s.fbw * (PIXEL_SCALE as int)
    &&& 0 <= ray_px_y(s, k) < s.fbh * (PIXEL_SCALE as int)
}

/// The grid column under the candidate point after `k` steps.
pub open spec fn ray_col(s: RayScene, k: int) -> int {
    (ray_px_x(s, k) / (PIXEL_SCALE as int)) / s.block
}

/// The grid row under the candidate point after `k` steps.
pub open spec fn ray_row(s: RayScene, k: int) -> int {
    (ray_px_y(s, k) / (PIXEL_SCALE as int)) / s.block
}

/// The candidate point after `k` steps lies within the maze's extents.
pub open spec fn ray_in_maze(s: RayScene, k: int) -> bool {
    &&& 0 <= ray_row(s, k) < s.grid.len()
    &&& 0 <= ray_col(s, k) < s.grid[ray_row(s, k)].len()
}

/// The candidate point after `k` steps lands on a non-open cell.
pub open spec fn ray_hits(s: RayScene, k: int) -> bool {
    &&& ray_in_maze(s, k)
    &&& s.grid[ray_row(s, k)][ray_col(s, k)] != OPEN_CELL
}

/// The march ends at step `k`: the candidate left the framebuffer, or
/// it struck a wall.  Leaving the maze's extents alone never stops it.
pub open spec fn ray_stops(s: RayScene, k: int) -> bool {
    !ray_in_fb(s, k) || ray_hits(s, k)
}

/// The march actually gets as far as step `k`.
pub open spec fn ray_reaches(s: RayScene, k: int) -> bool {
    &&& 0 <= k
    &&& forall|i: int| 0 <= i < k ==> !ray_stops(s, i)
}

/// Pixel `(x, y)` is painted by a traced march: some reached step has
/// its candidate on the framebuffer, within the maze, over that pixel.
pub open spec fn ray_paints(s: RayScene, x: int, y: int) -> bool {
    exists|j: int|
        {
            &&& ray_reaches(s, j)
            &&& ray_in_fb(s, j)
            &&& #[trigger] ray_in_maze(s, j)
            &&& ray_px_x(s, j) / (PIXEL_SCALE as int) == x
            &&& ray_px_y(s, j) / (PIXEL_SCALE as int) == y
        }
}

/// Pixel `(x, y)` is painted by one of the first `n` steps.
pub open spec fn ray_paints_before(s: RayScene, n: int, x: int, y: int) -> bool {
    exists|j: int|
        {
            &&& 0 <= j < n
            &&& ray_in_fb(s, j)
            &&& #[trigger] ray_in_maze(s, j)
            &&& ray_px_x(s, j) / (PIXEL_SCALE as int) == x
            &&& ray_px_y(s, j) / (PIXEL_SCALE as int) == y
        }
}

/// A traced march turns every pixel it paints to the trace color and
/// leaves every other pixel alone.
pub open spec fn traced(p: Seq<Color>, s: RayScene, c: Color) -> Seq<Color> {
    Seq::new(
        p.len(),
        |i: int|
            if ray_paints(s, i % s.fbw, i / s.fbw) {
                c
            } else {
                p[i]
            },
    )
}

/// A direction a march can take: each component within one step
/// length, and at least one of them nonzero.
pub open spec fn valid_dir(d: RayDir, step: int) -> bool {
    &&& -step <= d.x <= step
    &&& -step <= d.y <= step
    &&& (d.x != 0 || d.y != 0)
}

/// The scene of one ray of a fan.
pub open spec fn ray_scene(
    g: Seq<Seq<char>>,
    fbw: int,
    fbh: int,
    px: int,
    py: int,
    d: RayDir,
    block: int,
) -> RayScene {
    RayScene { grid: g, fbw: fbw, fbh: fbh, px: px, py: py, sx: d.x as int, sy: d.y as int, block: block }
}

/// The first `n` rays of a fan, traced in order over the surface.
pub open spec fn trace_fan(
    p: Seq<Color>,
    g: Seq<Seq<char>>,
    fbw: int,
    fbh: int,
    px: int,
    py: int,
    dirs: Seq<RayDir>,
    block: int,
    c: Color,
    n: int,
) -> Seq<Color>
    decreases n,
{
    if n <= 0 {
        p
    } else {
        traced(
            trace_fan(p, g, fbw, fbh, px, py, dirs, block, c, n - 1),
            ray_scene(g, fbw, fbh, px, py, dirs[n - 1], block),
            c,
        )
    }
}

/// More steps than any march can take before leaving the framebuffer.
pub open spec fn ray_fuel(s: RayScene) -> int {
    s.fbw * (PIXEL_SCALE as int) + s.fbh * (PIXEL_SCALE as int) + vstd::math::abs(s.px)
        + vstd::math::abs(s.py) + 1
}

/// While the candidate is still on the framebuffer, fewer than
/// `ray_fuel` steps have been taken: the march terminates.
pub proof fn lemma_step_within_fuel(s: RayScene, k: int)
    requires
        scene_wf(s),
        0 <= k,
        ray_in_fb(s, k),
    ensures
        k + 1 <= ray_fuel(s),
{
    if s.sx >= 1 {
        assert(k <= k * s.sx) by (nonlinear_arith)
            requires
                0 <= k,
                1 <= s.sx,
        ;
    } else if s.sx <= -1 {
        assert(k <= -(k * s.sx)) by (nonlinear_arith)
            requires
                0 <= k,
                s.sx <= -1,
        ;
    } else {
        if s.sy >= 1 {
            assert(k <= k * s.sy) by (nonlinear_arith)
                requires
                    0 <= k,
                    1 <= s.sy,
            ;
        } else {
            assert(k <= -(k * s.sy)) by (nonlinear_arith)
                requires
                    0 <= k,
                    s.sy <= -1,
            ;
        }
    }
}

/// Candidate coordinates stay well within a 64-bit word for any step
/// count up to the fuel bound.
pub proof fn lemma_point_bounds(s: RayScene, k: int)
    requires
        scene_wf(s),
        0 <= k <= ray_fuel(s),
    ensures
        -0x10_0000_0000_0000 <= k * s.sx <= 0x10_0000_0000_0000,
        -0x10_0000_0000_0000 <= k * s.sy <= 0x10_0000_0000_0000,
        -0x20_0000_0000_0000 <= ray_px_x(s, k) <= 0x20_0000_0000_0000,
        -0x20_0000_0000_0000 <= ray_px_y(s, k) <= 0x20_0000_0000_0000,
{
    assert(ray_fuel(s) <= 0x1_0000_0000);
    assert(-0x10_0000_0000_0000 <= k * s.sx <= 0x10_0000_0000_0000) by (nonlinear_arith)
        requires
            0 <= k <= 0x1_0000_0000,
            -0x10_0000 <= s.sx <= 0x10_0000,
    ;
    assert(-0x10_0000_0000_0000 <= k * s.sy <= 0x10_0000_0000_0000) by (nonlinear_arith)
        requires
            0 <= k <= 0x1_0000_0000,
            -0x10_0000 <= s.sy <= 0x10_0000,
    ;
}

/// Extending the march by one step paints exactly the pixel that step
/// covers — when that step is on the framebuffer and within the maze —
/// and nothing else.
pub proof fn lemma_paints_step(s: RayScene, k: int, x: int, y: int)
    requires
        0 <= k,
    ensures
        ray_paints_before(s, k + 1, x, y) <==> (ray_paints_before(s, k, x, y) || (ray_in_fb(s, k)
            && ray_in_maze(s, k) && ray_px_x(s, k) / (PIXEL_SCALE as int) == x && ray_px_y(s, k) / (
        PIXEL_SCALE as int) == y)),
{
    if ray_paints_before(s, k + 1, x, y) {
        let j = choose|j: int|
            {
                &&& 0 <= j < k + 1
                &&& ray_in_fb(s, j)
                &&& #[trigger] ray_in_maze(s, j)
                &&& ray_px_x(s, j) / (PIXEL_SCALE as int) == x
                &&& ray_px_y(s, j) / (PIXEL_SCALE as int) == y
            };
        if j < k {
            assert(ray_paints_before(s, k, x, y));
        }
    }
    if ray_paints_before(s, k, x, y) {
        let j = choose|j: int|
            {
                &&& 0 <= j < k
                &&& ray_in_fb(s, j)
                &&& #[trigger] ray_in_maze(s, j)
                &&& ray_px_x(s, j) / (PIXEL_SCALE as int) == x
                &&& ray_px_y(s, j) / (PIXEL_SCALE as int) == y
            };
        assert(0 <= j < k + 1 && ray_in_maze(s, j));
    }
}

/// Once the first stopping step is known, the pixels a traced march
/// paints are exactly those of the steps up to and including it.
pub proof fn lemma_paints_at_stop(s: RayScene, k: int, x: int, y: int)
    requires
        0 <= k,
        forall|i: int| 0 <= i < k ==> !ray_stops(s, i),
        ray_stops(s, k),
    ensures
        ray_paints(s, x, y) <==> ray_paints_before(s, k + 1, x, y),
{
    if ray_paints(s, x, y) {
        let j = choose|j: int|
            {
                &&& ray_reaches(s, j)
                &&& ray_in_fb(s, j)
                &&& #[trigger] ray_in_maze(s, j)
                &&& ray_px_x(s, j) / (PIXEL_SCALE as int) == x
                &&& ray_px_y(s, j) / (PIXEL_SCALE as int) == y
            };
        if j > k {
            assert(!ray_stops(s, k));
            assert(false);
        }
        assert(0 <= j < k + 1 && ray_in_maze(s, j));
    }
    if ray_paints_before(s, k + 1, x, y) {
        let j = choose|j: int|
            {
                &&& 0 <= j < k + 1
                &&& ray_in_fb(s, j)
                &&& #[trigger] ray_in_maze(s, j)
                &&& ray_px_x(s, j) / (PIXEL_SCALE as int) == x
                &&& ray_px_y(s, j) / (PIXEL_SCALE as int) == y
            };
        assert(ray_reaches(s, j));
    }
}

/// In an all-open maze a march can stop only by leaving the
/// framebuffer: no step ever strikes a wall.
pub proof fn lemma_all_open_never_hits(s: RayScene)
    requires
        forall|r: int, c: int|
            0 <= r < s.grid.len() && 0 <= c < s.grid[r].len() ==> #[trigger] s.grid[r][c]
                == OPEN_CELL,
    ensures
        forall|k: int| ray_stops(s, k) <==> !ray_in_fb(s, k),
{
    assert forall|k: int| ray_stops(s, k) <==> !ray_in_fb(s, k) by {
        if ray_in_maze(s, k) {
            assert(s.grid[ray_row(s, k)][ray_col(s, k)] == OPEN_CELL);
        }
    }
}

/// The first stopping step at or after `k`, found within `fuel` more
/// steps.
pub open spec fn ray_stop_from(s: RayScene, k: int, fuel: nat) -> int
    decreases fuel,
{
    if ray_stops(s, k) {
        k
    } else if fuel == 0 {
        k
    } else {
        ray_stop_from(s, k + 1, (fuel - 1) as nat)
    }
}

/// The step at which a march from the origin stops.
pub open spec fn ray_stop_steps(s: RayScene) -> int {
    ray_stop_from(
        s,
        0,
        (if ray_fuel(s) >= 0 {
            ray_fuel(s)
        } else {
            0
        }) as nat,
    )
}

/// The distance a march travels before stopping: its stopping step
/// count times the step length, in sub-pixel units.
pub open spec fn ray_distance(s: RayScene, step: int) -> int {
    ray_stop_steps(s) * step
}

proof fn lemma_stop_from_unique(s: RayScene, j: int, k: int, fuel: nat)
    requires
        j <= k,
        forall|i: int| j <= i < k ==> !ray_stops(s, i),
        ray_stops(s, k),
        k - j <= fuel,
    ensures
        ray_stop_from(s, j, fuel) == k,
    decreases k - j,
{
    if j < k {
        lemma_stop_from_unique(s, j + 1, k, (fuel - 1) as nat);
    }
}

/// A first stopping step, as a cast reports it, is the spec-level
/// stopping step of the scene.
pub proof fn lemma_stop_steps(s: RayScene, k: int)
    requires
        scene_wf(s),
        0 <= k,
        forall|i: int| 0 <= i < k ==> !ray_stops(s, i),
        ray_stops(s, k),
    ensures
        ray_stop_steps(s) == k,
{
    if k > 0 {
        assert(!ray_stops(s, k - 1));
        lemma_step_within_fuel(s, k - 1);
    }
    assert(ray_fuel(s) >= 1);
    lemma_stop_from_unique(s, 0, k, ray_fuel(s) as nat);
}

/// In an all-open maze the march travels exactly to the framebuffer's
/// edge: its distance is the count of steps needed to exit, times the
/// step length.
pub proof fn lemma_all_open_exit_distance(s: RayScene, k: int, step: int)
    requires
        scene_wf(s),
        forall|r: int, c: int|
            0 <= r < s.grid.len() && 0 <= c < s.grid[r].len() ==> #[trigger] s.grid[r][c]
                == OPEN_CELL,
        0 <= k,
        forall|i: int| 0 <= i < k ==> ray_in_fb(s, i),
        !ray_in_fb(s, k),
    ensures
        ray_distance(s, step) == k * step,
{
    lemma_all_open_never_hits(s);
    lemma_stop_steps(s, k);
}

/// A step outside the maze's extents but on the framebuffer never
/// stops the march: the ray passes through such a region and may still
/// strike a wall, or leave the framebuffer, beyond it.
pub proof fn lemma_outside_maze_continues(s: RayScene, k: int)
    requires
        ray_in_fb(s, k),
        !ray_in_maze(s, k),
    ensures
        !ray_stops(s, k),
{
}

/// March one ray.  The result names the first stopping step: its
/// distance is that step count times the step length, and its impact
/// is the struck cell's symbol, or the open symbol when the ray left
/// the framebuffer first.  With `draw_line` the traversed pixels are
/// painted in `trace_color`; without it the framebuffer is untouched.
pub fn cast_ray(
    fb: &mut FrameBuffer,
    maze: &MazeGrid,
    player: &Player,
    dir: RayDir,
    step: i64,
    block_size: usize,
    draw_line: bool,
    trace_color: Color,
) -> (r: Intersect)
    requires
        old(fb).wf(),
        scene_wf(scene_of(*old(fb), *maze, *player, dir, block_size as int)),
        1 <= step <= 0x10_0000,
        -step <= dir.x <= step,
        -step <= dir.y <= step,
    ensures
        final(fb).wf(),
        final(fb).width == old(fb).width,
        final(fb).height == old(fb).height,
        final(fb).background_color == old(fb).background_color,
        final(fb).current_color == old(fb).current_color,
        ({
            let s = scene_of(*old(fb), *maze, *player, dir, block_size as int);
            let k = r.distance as int / step as int;
            &&& 0 <= r.distance
            &&& r.distance == k * step
            &&& ray_stops(s, k)
            &&& forall|i: int| 0 <= i < k ==> !ray_stops(s, i)
            &&& r.impact == (if ray_in_fb(s, k) {
                s.grid[ray_row(s, k)][ray_col(s, k)]
            } else {
                OPEN_CELL
            })
            &&& !draw_line ==> final(fb).buffer@ == old(fb).buffer@
            &&& draw_line ==> final(fb).buffer@ == traced(old(fb).buffer@, s, trace_color)
        }),
{
    let ghost s = scene_of(*old(fb), *maze, *player, dir, block_size as int);
    let wfp = (fb.width as i64) * PIXEL_SCALE;
    let hfp = (fb.height as i64) * PIXEL_SCALE;
    let mut k: i64 = 0;
    loop
        invariant
            fb.wf(),
            old(fb).wf(),
            fb.width == old(fb).width,
            fb.height == old(fb).height,
            fb.background_color == old(fb).background_color,
            fb.current_color == old(fb).current_color,
            fb.buffer@.len() == old(fb).buffer@.len(),
            s == scene_of(*old(fb), *maze, *player, dir, block_size as int),
            scene_wf(s),
            1 <= step <= 0x10_0000,
            -step <= dir.x <= step,
            -step <= dir.y <= step,
            wfp == s.fbw * (PIXEL_SCALE as int),
            hfp == s.fbh * (PIXEL_SCALE as int),
            0 <= k <= ray_fuel(s),
            forall|i: int| 0 <= i < k ==> !ray_stops(s, i),
            !draw_line ==> fb.buffer@ == old(fb).buffer@,
            draw_line ==> forall|i: int|
                0 <= i < fb.buffer@.len() ==> fb.buffer@[i] == (if ray_paints_before(
                    s,
                    k as int,
                    i % s.fbw,
                    i / s.fbw,
                ) {
                    trace_color
                } else {
                    old(fb).buffer@[i]
                }),
        ensures
            0 <= k <= ray_fuel(s),
            !ray_in_fb(s, k as int),
            forall|i: int| 0 <= i < k ==> !ray_stops(s, i),
            fb.wf(),
            fb.width == old(fb).width,
            fb.height == old(fb).height,
            fb.background_color == old(fb).background_color,
            fb.current_color == old(fb).current_color,
            fb.buffer@.len() == old(fb).buffer@.len(),
            !draw_line ==> fb.buffer@ == old(fb).buffer@,
            draw_line ==> forall|i: int|
                0 <= i < fb.buffer@.len() ==> fb.buffer@[i] == (if ray_paints_before(
                    s,
                    k as int,
                    i % s.fbw,
                    i / s.fbw,
                ) {
                    trace_color
                } else {
                    old(fb).buffer@[i]
                }),
        decreases ray_fuel(s) - k,
    {
        proof {
            lemma_point_bounds(s, k as int);
        }
        let cx = player.pos_x + k * dir.x;
        let cy = player.pos_y + k * dir.y;
        if !(0 <= cx && cx < wfp && 0 <= cy && cy < hfp) {
            break ;
        }
        proof {
            lemma_step_within_fuel(s, k as int);
        }
        let ux = (cx as usize) / (PIXEL_SCALE as usize);
        let uy = (cy as usize) / (PIXEL_SCALE as usize);
        let col = ux / block_size;
        let row = uy / block_size;
        let in_maze = row < maze.cells.len() && col < maze.cells[row].len();
        proof {
            assert(s.grid.len() == maze.cells@.len());
            if row < maze.cells@.len() {
                assert(s.grid[row as int] == maze.cells@[row as int]@);
            }
            assert(ray_col(s, k as int) == col as int);
            assert(ray_row(s, k as int) == row as int);
            assert(in_maze == ray_in_maze(s, k as int));
        }
        if !in_maze {
            proof {
                assert forall|x: int, y: int|
                    ray_paints_before(s, k as int + 1, x, y) == ray_paints_before(
                        s,
                        k as int,
                        x,
                        y,
                    ) by {
                    lemma_paints_step(s, k as int, x, y);
                }
            }
            k = k + 1;
            continue ;
        }
        if draw_line {
            let ghost pre = fb.buffer@;
            fb.set_pixel(ux, uy, trace_color);
            proof {
                lemma_row_major_index(s.fbw, s.fbh, ux as int, uy as int);
                let idx = uy as int * s.fbw + ux as int;
                assert forall|i: int| 0 <= i < fb.buffer@.len() implies fb.buffer@[i] == (
                if ray_paints_before(s, k as int + 1, i % s.fbw, i / s.fbw) {
                    trace_color
                } else {
                    old(fb).buffer@[i]
                }) by {
                    lemma_paints_step(s, k as int, i % s.fbw, i / s.fbw);
                    if i != idx {
                        if i % s.fbw == ux as int && i / s.fbw == uy as int {
                            vstd::arithmetic::div_mod::lemma_fundamental_div_mod(i, s.fbw);
                        }
                    }
                }
            }
        }
        let cell = maze.cells[row][col];
        if cell != OPEN_CELL {
            proof {
                assert(ray_hits(s, k as int));
                assert(0 <= k * step <= 0x10_0000_0000_0000) by (nonlinear_arith)
                    requires
                        0 <= k <= 0x1_0000_0000,
                        1 <= step <= 0x10_0000,
                ;
                vstd::arithmetic::div_mod::lemma_div_multiples_vanish(k as int, step as int);
                assert(step as int * k as int == k as int * step as int) by (nonlinear_arith);
            }
            let d = k * step;
            proof {
                if draw_line {
                    assert forall|i: int| 0 <= i < fb.buffer@.len() implies fb.buffer@[i]
                        == traced(old(fb).buffer@, s, trace_color)[i] by {
                        lemma_paints_at_stop(s, k as int, i % s.fbw, i / s.fbw);
                    }
                    assert(fb.buffer@ =~= traced(old(fb).buffer@, s, trace_color));
                }
            }
            return Intersect { distance: d, impact: cell };
        }
        k = k + 1;
    }
    proof {
        assert(ray_stops(s, k as int));
        assert(0 <= k * step <= 0x10_0000_0000_0000) by (nonlinear_arith)
            requires
                0 <= k <= 0x1_0000_0000,
                1 <= step <= 0x10_0000,
        ;
        vstd::arithmetic::div_mod::lemma_div_multiples_vanish(k as int, step as int);
        assert(step as int * k as int == k as int * step as int) by (nonlinear_arith);
        if draw_line {
            assert forall|i: int| 0 <= i < fb.buffer@.len() implies fb.buffer@[i] == traced(
                old(fb).buffer@,
                s,
                trace_color,
            )[i] by {
                lemma_paints_at_stop(s, k as int, i % s.fbw, i / s.fbw);
                lemma_paints_step(s, k as int, i % s.fbw, i / s.fbw);
            }
            assert(fb.buffer@ =~= traced(old(fb).buffer@, s, trace_color));
        }
    }
    let d = k * step;
    Intersect { distance: d, impact: OPEN_CELL }
}

} // verus!
