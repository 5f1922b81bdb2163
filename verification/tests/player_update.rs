use ray_casting::player::{
    process_event, ray_angle, turned_heading, FrameInput, Player, PlayerConfig,
};

fn player() -> Player {
    Player { pos_x: 1000, pos_y: 2000, a: 0, fov: 300, mouse_sensitivity: 5, last_mouse_x: 10 }
}

fn cfg() -> PlayerConfig {
    PlayerConfig { rotation_speed: 100, turn: 6283 }
}

fn idle() -> FrameInput {
    FrameInput { left: false, right: false, up: false, down: false, mouse_x: None }
}

#[test]
fn left_key_rotates_without_wrapping() {
    let mut p = player();
    let ev = FrameInput { left: true, ..idle() };
    process_event(&mut p, &ev, 0, 0, &cfg());
    // keyboard rotation is not reduced modulo a full circle
    assert_eq!(p.a, -100);
    assert_eq!(p.pos_x, 1000);
    assert_eq!(p.pos_y, 2000);
    assert_eq!(p.last_mouse_x, 10);
}

#[test]
fn right_key_rotates_the_other_way() {
    let mut p = player();
    let ev = FrameInput { right: true, ..idle() };
    process_event(&mut p, &ev, 0, 0, &cfg());
    assert_eq!(p.a, 100);
}

#[test]
fn keyboard_rotation_accumulates_past_a_full_circle() {
    let mut p = player();
    let ev = FrameInput { right: true, ..idle() };
    for _ in 0..100 {
        process_event(&mut p, &ev, 0, 0, &cfg());
    }
    // 100 frames at 100 angle units exceeds the 6283-unit circle and
    // stays unwrapped: the keyboard path never reduces the heading
    assert_eq!(p.a, 10_000);
}

#[test]
fn up_key_adds_the_movement_vector() {
    let mut p = player();
    let ev = FrameInput { up: true, ..idle() };
    process_event(&mut p, &ev, 30, 40, &cfg());
    assert_eq!(p.pos_x, 1030);
    assert_eq!(p.pos_y, 2040);
}

#[test]
fn down_key_subtracts_the_movement_vector() {
    let mut p = player();
    let ev = FrameInput { down: true, ..idle() };
    process_event(&mut p, &ev, 30, 40, &cfg());
    assert_eq!(p.pos_x, 970);
    assert_eq!(p.pos_y, 1960);
}

#[test]
fn both_move_keys_cancel() {
    let mut p = player();
    let ev = FrameInput { up: true, down: true, ..idle() };
    process_event(&mut p, &ev, 30, 40, &cfg());
    assert_eq!(p.pos_x, 1000);
    assert_eq!(p.pos_y, 2000);
}

#[test]
fn mouse_delta_turns_and_wraps_the_heading() {
    let mut p = player();
    // delta = 20 - 10 = 10, scaled by sensitivity 5: heading -50,
    // wrapped with the sign kept
    let ev = FrameInput { mouse_x: Some(20), ..idle() };
    process_event(&mut p, &ev, 0, 0, &cfg());
    assert_eq!(p.a, -50);
    assert_eq!(p.last_mouse_x, 20);
}

#[test]
fn mouse_wrap_reduces_modulo_full_circle() {
    let mut p = player();
    p.a = 6283;
    p.mouse_sensitivity = 1;
    p.last_mouse_x = 0;
    // delta = -100: heading 6283 + 100 = 6383, wrapped to 100
    let ev = FrameInput { mouse_x: Some(-100), ..idle() };
    process_event(&mut p, &ev, 0, 0, &cfg());
    assert_eq!(p.a, 100);
    assert_eq!(p.last_mouse_x, -100);
}

#[test]
fn ray_fan_spreads_across_the_field_of_view() {
    // heading 0, field of view 600: the fan starts half a field to the
    // left and advances by even fractions of the field
    assert_eq!(ray_angle(0, 600, 0, 3), -300);
    assert_eq!(ray_angle(0, 600, 1, 3), -100);
    assert_eq!(ray_angle(0, 600, 2, 3), 100);
    assert_eq!(ray_angle(1000, 600, 0, 3), 700);
}

#[test]
fn turned_heading_matches_the_turn_keys() {
    let p = player();
    let c = cfg();
    assert_eq!(turned_heading(&p, true, false, &c), -100);
    assert_eq!(turned_heading(&p, false, true, &c), 100);
    assert_eq!(turned_heading(&p, true, true, &c), 0);
    assert_eq!(turned_heading(&p, false, false, &c), 0);
}
