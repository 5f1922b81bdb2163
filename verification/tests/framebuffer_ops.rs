use ray_casting::color::Color;
use ray_casting::framebuffer::FrameBuffer;

#[test]
fn new_buffer_is_white() {
    let fb = FrameBuffer::new(4, 3);
    assert_eq!(fb.width, 4);
    assert_eq!(fb.height, 3);
    for y in 0..3 {
        for x in 0..4 {
            assert_eq!(fb.get_color(x, y), Color::new(255, 255, 255));
        }
    }
}

#[test]
fn clear_paints_background_everywhere() {
    let mut fb = FrameBuffer::new(8, 8);
    fb.set_background_color(Color::new(1, 2, 3));
    fb.set_pixel(5, 5, Color::new(9, 9, 9));
    fb.clear();
    for y in 0..8 {
        for x in 0..8 {
            assert_eq!(fb.get_color(x, y), Color::new(1, 2, 3));
        }
    }
}

#[test]
fn get_color_out_of_bounds_is_background() {
    let mut fb = FrameBuffer::new(2, 2);
    fb.set_background_color(Color::new(7, 8, 9));
    assert_eq!(fb.get_color(2, 0), Color::new(7, 8, 9));
    assert_eq!(fb.get_color(0, 2), Color::new(7, 8, 9));
    assert_eq!(fb.get_color(100, 100), Color::new(7, 8, 9));
}

#[test]
fn set_pixel_out_of_bounds_is_ignored() {
    let mut fb = FrameBuffer::new(2, 2);
    fb.set_pixel(2, 0, Color::new(1, 1, 1));
    fb.set_pixel(0, 2, Color::new(1, 1, 1));
    for y in 0..2 {
        for x in 0..2 {
            assert_eq!(fb.get_color(x, y), Color::new(255, 255, 255));
        }
    }
}

#[test]
fn set_pixel_current_uses_current_color() {
    let mut fb = FrameBuffer::new(2, 2);
    fb.set_current_color(Color::new(10, 20, 30));
    fb.set_pixel_current(1, 1);
    assert_eq!(fb.get_color(1, 1), Color::new(10, 20, 30));
    assert_eq!(fb.get_color(0, 0), Color::new(255, 255, 255));
}

#[test]
fn draw_rectangle_fills_exactly_the_rectangle() {
    let mut fb = FrameBuffer::new(10, 10);
    fb.set_current_color(Color::new(255, 0, 0));
    fb.draw_rectangle(2, 3, 4, 5);
    for y in 0..10 {
        for x in 0..10 {
            let inside = x >= 2 && x < 6 && y >= 3 && y < 8;
            let expected = if inside {
                Color::new(255, 0, 0)
            } else {
                Color::new(255, 255, 255)
            };
            assert_eq!(fb.get_color(x, y), expected);
        }
    }
    // adjacent untouched pixels, spelled out
    assert_eq!(fb.get_color(1, 3), Color::new(255, 255, 255));
    assert_eq!(fb.get_color(6, 3), Color::new(255, 255, 255));
    assert_eq!(fb.get_color(2, 2), Color::new(255, 255, 255));
    assert_eq!(fb.get_color(2, 8), Color::new(255, 255, 255));
}

#[test]
fn draw_rectangle_clips_to_the_surface() {
    let mut fb = FrameBuffer::new(10, 10);
    fb.set_current_color(Color::new(0, 255, 0));
    fb.draw_rectangle(8, 8, 5, 5);
    for y in 0..10 {
        for x in 0..10 {
            let inside = x >= 8 && y >= 8;
            let expected = if inside {
                Color::new(0, 255, 0)
            } else {
                Color::new(255, 255, 255)
            };
            assert_eq!(fb.get_color(x, y), expected);
        }
    }
}

#[test]
fn degenerate_rectangle_draws_nothing() {
    let mut fb = FrameBuffer::new(4, 4);
    fb.set_current_color(Color::new(0, 0, 255));
    fb.draw_rectangle(4, 0, 3, 3);
    fb.draw_rectangle(0, 4, 3, 3);
    fb.draw_rectangle(1, 1, 0, 5);
    for y in 0..4 {
        for x in 0..4 {
            assert_eq!(fb.get_color(x, y), Color::new(255, 255, 255));
        }
    }
}

#[test]
fn fill_rectangle_takes_explicit_color() {
    let mut fb = FrameBuffer::new(4, 4);
    fb.set_current_color(Color::new(9, 9, 9));
    fb.fill_rectangle(0, 0, 2, 2, Color::new(5, 6, 7));
    assert_eq!(fb.get_color(0, 0), Color::new(5, 6, 7));
    assert_eq!(fb.get_color(1, 1), Color::new(5, 6, 7));
    assert_eq!(fb.get_color(2, 2), Color::new(255, 255, 255));
}

#[test]
fn to_hex_packs_channels() {
    assert_eq!(Color::new(1, 2, 3).to_hex(), 0x010203);
    assert_eq!(Color::new(255, 255, 255).to_hex(), 0xFFFFFF);
    assert_eq!(Color::new(0, 0, 0).to_hex(), 0);
}

#[test]
fn cast_buffer_packs_row_major() {
    let mut fb = FrameBuffer::new(2, 2);
    fb.set_pixel(0, 0, Color::new(1, 0, 0));
    fb.set_pixel(1, 0, Color::new(0, 1, 0));
    fb.set_pixel(0, 1, Color::new(0, 0, 1));
    fb.set_pixel(1, 1, Color::new(2, 2, 2));
    let packed = fb.cast_buffer();
    assert_eq!(packed, vec![0x010000, 0x000100, 0x000001, 0x020202]);
}
