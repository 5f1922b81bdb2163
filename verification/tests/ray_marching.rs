use ray_casting::caster::{cast_ray, RayDir};
use ray_casting::color::Color;
use ray_casting::framebuffer::FrameBuffer;
use ray_casting::maze::MazeGrid;
use ray_casting::player::Player;

fn player_at(pos_x: i64, pos_y: i64) -> Player {
    Player { pos_x, pos_y, a: 0, fov: 0, mouse_sensitivity: 0, last_mouse_x: 0 }
}

fn red() -> Color {
    Color::new(255, 0, 0)
}

#[test]
fn all_open_maze_reports_no_hit_with_exit_distance() {
    // 2 x 1 pixel framebuffer, one open cell; the ray leaves through the
    // right edge after exactly two whole-pixel steps.
    let mut fb = FrameBuffer::new(2, 1);
    let maze = MazeGrid { cells: vec![vec![' ']] };
    let player = player_at(500, 500);
    let r = cast_ray(&mut fb, &maze, &player, RayDir { x: 1000, y: 0 }, 1000, 10, false, red());
    assert_eq!(r.impact, ' ');
    assert_eq!(r.distance, 2000);
}

#[test]
fn wall_at_ten_pixels_is_hit_at_five_units() {
    // Player at (5, 5) pixels, angle 0, block size 10, cell (0, 1)
    // holds '+': pixel range x in [10, 20) is struck at distance 5.0.
    let mut fb = FrameBuffer::new(100, 100);
    let maze = MazeGrid { cells: vec![vec![' ', '+']] };
    let player = player_at(5000, 5000);
    let r = cast_ray(&mut fb, &maze, &player, RayDir { x: 100, y: 0 }, 100, 10, false, red());
    assert_eq!(r.impact, '+');
    assert_eq!(r.distance, 5000);
}

#[test]
fn ray_continues_through_region_outside_maze_extents() {
    // The maze covers pixels [0, 10) only, the framebuffer is 100 wide.
    // A ray started at pixel x = 50 (outside the maze, inside the
    // framebuffer) marching left passes through the uncovered region
    // and still strikes the wall in column 0.
    let mut fb = FrameBuffer::new(100, 100);
    let maze = MazeGrid { cells: vec![vec!['+']] };
    let player = player_at(50_000, 5000);
    let r = cast_ray(&mut fb, &maze, &player, RayDir { x: -100, y: 0 }, 100, 10, false, red());
    assert_eq!(r.impact, '+');
    assert_eq!(r.distance, 40_100);
}

#[test]
fn ray_leaving_through_maze_gap_reports_no_hit() {
    // Same geometry, but marching away from the maze: the uncovered
    // region never stops the ray and it exits the framebuffer.
    let mut fb = FrameBuffer::new(100, 100);
    let maze = MazeGrid { cells: vec![vec!['+']] };
    let player = player_at(50_000, 5000);
    let r = cast_ray(&mut fb, &maze, &player, RayDir { x: 100, y: 0 }, 100, 10, false, red());
    assert_eq!(r.impact, ' ');
    assert_eq!(r.distance, 50_000);
}

#[test]
fn traced_ray_paints_its_path_and_nothing_else() {
    let mut fb = FrameBuffer::new(100, 100);
    let maze = MazeGrid { cells: vec![vec![' ', '+']] };
    let player = player_at(5000, 5000);
    let r = cast_ray(&mut fb, &maze, &player, RayDir { x: 100, y: 0 }, 100, 10, true, red());
    assert_eq!(r.impact, '+');
    // candidates run along row 5 from pixel 5 to the hit at pixel 10
    for x in 5..=10 {
        assert_eq!(fb.get_color(x, 5), red());
    }
    assert_eq!(fb.get_color(4, 5), Color::new(255, 255, 255));
    assert_eq!(fb.get_color(11, 5), Color::new(255, 255, 255));
    assert_eq!(fb.get_color(5, 6), Color::new(255, 255, 255));
    assert_eq!(fb.get_color(5, 4), Color::new(255, 255, 255));
}

#[test]
fn untraced_ray_leaves_the_surface_untouched() {
    let mut fb = FrameBuffer::new(100, 100);
    let maze = MazeGrid { cells: vec![vec![' ', '+']] };
    let player = player_at(5000, 5000);
    cast_ray(&mut fb, &maze, &player, RayDir { x: 100, y: 0 }, 100, 10, false, red());
    for y in 0..100 {
        for x in 0..100 {
            assert_eq!(fb.get_color(x, y), Color::new(255, 255, 255));
        }
    }
}

#[test]
fn player_outside_framebuffer_stops_at_once() {
    let mut fb = FrameBuffer::new(10, 10);
    let maze = MazeGrid { cells: vec![vec![' ']] };
    let player = player_at(20_000, 5000);
    let r = cast_ray(&mut fb, &maze, &player, RayDir { x: 100, y: 0 }, 100, 10, false, red());
    assert_eq!(r.impact, ' ');
    assert_eq!(r.distance, 0);
}

#[test]
fn diagonal_ray_hits_wall_below() {
    // Marching straight down from (5, 5) pixels, the wall row starts at
    // pixel y = 10: hit after fifty 0.1-pixel steps.
    let mut fb = FrameBuffer::new(100, 100);
    let maze = MazeGrid { cells: vec![vec![' '], vec!['#']] };
    let player = player_at(5000, 5000);
    let r = cast_ray(&mut fb, &maze, &player, RayDir { x: 0, y: 100 }, 100, 10, false, red());
    assert_eq!(r.impact, '#');
    assert_eq!(r.distance, 5000);
}
