//! The camera state and its per-frame update.
//!
//! Position is a fixed-point point in pixel space (see
//! [`crate::PIXEL_SCALE`]); the heading, the field of view and the
//! mouse sensitivity are integers in an angle unit chosen by the
//! caller, with a full circle given by [`PlayerConfig::turn`].  The
//! trigonometry that turns a heading into a movement vector lives with
//! the caller: the update here takes the per-frame movement vector as
//! plain values and is exact integer arithmetic throughout.

use vstd::prelude::*;

verus! {

/// Camera state: position, heading, field of view, mouse calibration.
pub struct Player {
    /// Position in sub-pixel units of pixel space.
    pub pos_x: i64,
    pub pos_y: i64,
    /// Heading, in angle units.
    pub a: i64,
    /// Field of view, in angle units.
    pub fov: i64,
    /// Heading change per whole pixel of horizontal mouse travel.
    pub mouse_sensitivity: i64,
    /// Horizontal mouse coordinate of the previous frame, whole pixels.
    pub last_mouse_x: i64,
}

/// Tuning values for the per-frame update.
pub struct PlayerConfig {
    /// Heading change per frame while a turn key is held, angle units.
    pub rotation_speed: i64,
    /// Angle units in one full circle.
    pub turn: i64,
}

/// Key and mouse state sampled once per frame.
pub struct FrameInput {
    pub left: bool,
    pub right: bool,
    pub up: bool,
    pub down: bool,
    /// Horizontal mouse coordinate, whole pixels, when one was sampled.
    pub mouse_x: Option<i64>,
}

/// The heading after the turn keys of one frame are applied.
pub open spec fn turn_result(a: int, left: bool, right: bool, rot: int) -> int {
    a - (if left {
        rot
    } else {
        0
    }) + (if right {
        rot
    } else {
        0
    })
}

/// One coordinate after the move keys of one frame are applied:
/// the step is added while Up is held and subtracted while Down is.
pub open spec fn moved(p: int, step: int, up: bool, down: bool) -> int {
    p + (if up {
        step
    } else {
        0
    }) - (if down {
        step
    } else {
        0
    })
}

/// The sign-preserving remainder of `a` modulo one full circle,
/// as a truncating machine remainder computes it.
pub open spec fn wrapped(a: int, turn: int) -> int
    recommends
        turn >= 1,
{
    if a >= 0 {
        a % turn
    } else {
        -((-a) % turn)
    }
}

/// The heading the frame will move along: the turn keys are applied
/// before movement, so the caller derives the movement vector from
/// this value rather than from the previous frame's heading.
pub fn turned_heading(p: &Player, left: bool, right: bool, cfg: &PlayerConfig) -> (a: i64)
    requires
        -0x1000_0000_0000 <= p.a <= 0x1000_0000_0000,
        0 <= cfg.rotation_speed <= 0x1000_0000,
    ensures
        a == turn_result(p.a as int, left, right, cfg.rotation_speed as int),
{
    let mut a = p.a;
    if left {
        a = a - cfg.rotation_speed;
    }
    if right {
        a = a + cfg.rotation_speed;
    }
    a
}

/// The angle of ray `i` of a fan of `n` rays: the fan is spread evenly
/// across one field of view centered on the heading.
pub fn ray_angle(a: i64, fov: i64, i: usize, n: usize) -> (r: i64)
    requires
        1 <= n <= 0x10_0000,
        i < n,
        -0x1000_0000_0000 <= a <= 0x1000_0000_0000,
        0 <= fov <= 0x4000_0000,
    ensures
        r == a - fov / 2 + (fov * i) / (n as int),
{
    proof {
        assert(0 <= fov as int * i as int <= 0x4000_0000_0000_0000) by (nonlinear_arith)
            requires
                0 <= fov <= 0x4000_0000,
                0 <= i <= 0x10_0000,
        ;
        vstd::arithmetic::div_mod::lemma_div_pos_is_pos(
            fov as int * i as int,
            n as int,
        );
        vstd::arithmetic::div_mod::lemma_div_is_ordered_by_denominator(
            fov as int * i as int,
            1,
            n as int,
        );
        vstd::arithmetic::div_mod::lemma_div_basics(fov as int * i as int);
    }
    let spread = (fov * (i as i64)) / (n as i64);
    a - fov / 2 + spread
}

/// Advance the camera one frame: turn keys rotate the heading by the
/// fixed per-frame increment, move keys translate the position by the
/// given vector (added for Up, subtracted for Down), and a sampled
/// mouse coordinate turns the heading by the sensitivity-scaled delta
/// and then wraps it modulo one full circle.  The wrap happens only on
/// the mouse path: pure keyboard rotation is left unwrapped.
pub fn process_event(p: &mut Player, ev: &FrameInput, step_x: i64, step_y: i64, cfg: &PlayerConfig)
    requires
        -0x1000_0000_0000 <= old(p).a <= 0x1000_0000_0000,
        -0x1000_0000_0000 <= old(p).pos_x <= 0x1000_0000_0000,
        -0x1000_0000_0000 <= old(p).pos_y <= 0x1000_0000_0000,
        -0x1000_0000 <= step_x <= 0x1000_0000,
        -0x1000_0000 <= step_y <= 0x1000_0000,
        -0x1000_0000 <= old(p).mouse_sensitivity <= 0x1000_0000,
        -0x10_0000 <= old(p).last_mouse_x <= 0x10_0000,
        ev.mouse_x matches Some(mx) ==> -0x10_0000 <= mx <= 0x10_0000,
        0 <= cfg.rotation_speed <= 0x1000_0000,
        1 <= cfg.turn <= 0x1000_0000_0000,
    ensures
        final(p).fov == old(p).fov,
        final(p).mouse_sensitivity == old(p).mouse_sensitivity,
        final(p).pos_x == moved(old(p).pos_x as int, step_x as int, ev.up, ev.down),
        final(p).pos_y == moved(old(p).pos_y as int, step_y as int, ev.up, ev.down),
        ({
            let a1 = turn_result(old(p).a as int, ev.left, ev.right, cfg.rotation_speed as int);
            match ev.mouse_x {
                Some(mx) => {
                    &&& final(p).a == wrapped(
                        a1 - (mx - old(p).last_mouse_x) * old(p).mouse_sensitivity,
                        cfg.turn as int,
                    )
                    &&& final(p).last_mouse_x == mx
                },
                None => {
                    &&& final(p).a == a1
                    &&& final(p).last_mouse_x == old(p).last_mouse_x
                },
            }
        }),
{
    if ev.left {
        p.a = p.a - cfg.rotation_speed;
    }
    if ev.right {
        p.a = p.a + cfg.rotation_speed;
    }
    if ev.up {
        p.pos_x = p.pos_x + step_x;
        p.pos_y = p.pos_y + step_y;
    }
    if ev.down {
        p.pos_x = p.pos_x - step_x;
        p.pos_y = p.pos_y - step_y;
    }
    match ev.mouse_x {
        Some(mx) => {
            let delta = mx - p.last_mouse_x;
            proof {
                assert(-0x2000_0000_0000_0000 <= delta as int * p.mouse_sensitivity as int
                    <= 0x2000_0000_0000_0000) by (nonlinear_arith)
                    requires
                        -0x20_0000 <= delta <= 0x20_0000,
                        -0x1000_0000 <= p.mouse_sensitivity <= 0x1000_0000,
                ;
            }
            p.a = p.a - delta * p.mouse_sensitivity;
            p.last_mouse_x = mx;
            if p.a >= 0 {
                p.a = p.a % cfg.turn;
            } else {
                p.a = -((-p.a) % cfg.turn);
            }
        },
        None => {},
    }
}

} // verus!
