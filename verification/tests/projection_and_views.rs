use ray_casting::caster::RayDir;
use ray_casting::color::Color;
use ray_casting::framebuffer::FrameBuffer;
use ray_casting::maze::MazeGrid;
use ray_casting::player::Player;
use ray_casting::projection::{minimap_marker_offset, wall_height};
use ray_casting::render::RenderConfig;
use ray_casting::render2d::render2d;
use ray_casting::render3d::render3d;
use ray_casting::texture::Texture;

fn player_at(pos_x: i64, pos_y: i64) -> Player {
    Player { pos_x, pos_y, a: 0, fov: 0, mouse_sensitivity: 0, last_mouse_x: 0 }
}

#[test]
fn wall_height_follows_the_projection_formula() {
    // half-height 450, projection constant 100: at one pixel (1000
    // sub-pixel units) of distance the strip is 45000 pixels tall
    assert_eq!(wall_height(450, 1000, 100), 45_000);
    assert_eq!(wall_height(450, 2000, 100), 22_500);
    assert_eq!(wall_height(450, 9000, 100), 5_000);
}

#[test]
fn wall_height_clamps_a_degenerate_distance() {
    // distance zero is clamped to one sub-pixel unit, never divided by
    assert_eq!(wall_height(450, 0, 100), 45_000_000);
    assert_eq!(wall_height(450, -7, 100), 45_000_000);
}

#[test]
fn wall_height_is_monotonically_non_increasing() {
    let mut last = wall_height(450, 1, 100);
    for d in 2..200 {
        let h = wall_height(450, d * 37, 100);
        assert!(h <= last);
        last = h;
    }
}

#[test]
fn minimap_marker_scales_by_the_block_ratio() {
    // two whole blocks from the origin, main block 10, minimap block 3:
    // the marker sits exactly 2 * 3 pixels from the minimap corner
    assert_eq!(minimap_marker_offset(2 * 10 * 1000, 10, 3), 6);
    // half a block in scales to half the minimap block, truncated
    assert_eq!(minimap_marker_offset(5 * 1000, 10, 3), 1);
    // a negative position clamps to the corner
    assert_eq!(minimap_marker_offset(-1, 10, 3), 0);
}

#[test]
fn render2d_draws_cells_and_marker() {
    let mut fb = FrameBuffer::new(4, 4);
    let maze = MazeGrid { cells: vec![vec![' ']] };
    let player = player_at(0, 0);
    let dirs: Vec<RayDir> = Vec::new();
    let cfg = RenderConfig { step: 100, projection_constant: 100, minimap_size: 0 };
    let block = render2d(&mut fb, &maze, &player, &dirs, &cfg);
    assert_eq!(block, 4);
    // the single open cell covers the whole surface in the default
    // floor color, and the player marker sits block-aligned at (0, 0)
    assert_eq!(fb.get_color(0, 0), Color::new(255, 0, 0));
    for y in 0..4 {
        for x in 0..4 {
            if !(x == 0 && y == 0) {
                assert_eq!(fb.get_color(x, y), Color::new(0, 50, 0));
            }
        }
    }
}

#[test]
fn render2d_traces_the_ray_fan() {
    let mut fb = FrameBuffer::new(20, 20);
    let maze = MazeGrid { cells: vec![vec![' ']] };
    let player = player_at(5000, 5000);
    let dirs = vec![RayDir { x: 100, y: 0 }];
    let cfg = RenderConfig { step: 100, projection_constant: 100, minimap_size: 0 };
    let block = render2d(&mut fb, &maze, &player, &dirs, &cfg);
    assert_eq!(block, 20);
    // the single cell spans the surface, so the traced ray runs from
    // the player to the right edge along row 5
    for x in 5..20 {
        assert_eq!(fb.get_color(x, 5), Color::new(255, 0, 0));
    }
    assert_eq!(fb.get_color(4, 5), Color::new(0, 50, 0));
    assert_eq!(fb.get_color(5, 6), Color::new(0, 50, 0));
}

#[test]
fn render3d_textures_full_height_strips_on_a_close_wall() {
    let mut fb = FrameBuffer::new(4, 4);
    let maze = MazeGrid { cells: vec![vec!['+']] };
    let player = player_at(2000, 2000);
    let dirs = vec![
        RayDir { x: 1000, y: 0 },
        RayDir { x: 1000, y: 0 },
        RayDir { x: 1000, y: 0 },
        RayDir { x: 1000, y: 0 },
    ];
    let texture = Texture::new(1, 1, vec![200]);
    let cfg = RenderConfig { step: 1000, projection_constant: 100, minimap_size: 0 };
    let block = render3d(&mut fb, &maze, &player, &dirs, &texture, &cfg);
    assert_eq!(block, 4);
    // the player stands inside the wall cell: every ray stops at
    // distance zero, the projected strip covers every row, and each
    // pixel takes the texture's single sample
    for y in 0..4 {
        for x in 0..4 {
            assert_eq!(fb.get_color(x, y), Color::new(200, 200, 200));
        }
    }
}

#[test]
fn render3d_leaves_sky_and_floor_around_a_distant_wall() {
    let mut fb = FrameBuffer::new(4, 8);
    let maze = MazeGrid { cells: vec![vec![' ', '#']] };
    // pixel (0, 1): inside the open cell; block size 4 / 2 cols = 2
    // pixels, so the wall cell spans x in [2, 4)
    let player = player_at(500, 1500);
    let dirs = vec![
        RayDir { x: 1000, y: 0 },
        RayDir { x: 1000, y: 0 },
        RayDir { x: 1000, y: 0 },
        RayDir { x: 1000, y: 0 },
    ];
    let texture = Texture::new(1, 1, vec![77]);
    let cfg = RenderConfig { step: 1000, projection_constant: 2, minimap_size: 0 };
    render3d(&mut fb, &maze, &player, &dirs, &texture, &cfg);
    // the wall is struck at distance 2000 (two pixels): strip height
    // 4 * 2 * 1000 / 2000 = 4 around half-height 4, rows [2, 6)
    for y in 0..8 {
        for x in 0..4 {
            let expected = if y < 2 {
                Color::new(0, 0, 50)
            } else if y < 6 {
                Color::new(77, 77, 77)
            } else {
                Color::new(0, 50, 0)
            };
            assert_eq!(fb.get_color(x, y), expected);
        }
    }
}

#[test]
fn render3d_draws_the_minimap_backdrop_and_marker() {
    let mut fb = FrameBuffer::new(8, 8);
    let maze = MazeGrid { cells: vec![vec![' ']] };
    let player = player_at(0, 0);
    // a zero projection constant keeps every wall strip empty, so the
    // sky and floor bands stay visible under the minimap overlay
    let dirs = vec![RayDir { x: -1000, y: -1000 }; 8];
    let texture = Texture::new(1, 1, vec![99]);
    let cfg = RenderConfig { step: 1000, projection_constant: 0, minimap_size: 4 };
    render3d(&mut fb, &maze, &player, &dirs, &texture, &cfg);
    // minimap corner: backdrop at [4, 8) x [4, 8), then the single open
    // cell drawn at minimap block size 4 over it, marker at its corner
    assert_eq!(fb.get_color(4, 4), Color::new(255, 0, 0));
    assert_eq!(fb.get_color(5, 5), Color::new(0, 50, 0));
    // above the minimap: sky in the top half, floor in the bottom
    assert_eq!(fb.get_color(0, 0), Color::new(0, 0, 50));
    assert_eq!(fb.get_color(0, 7), Color::new(0, 50, 0));
}
