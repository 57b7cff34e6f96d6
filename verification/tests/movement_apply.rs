//! Input recording, grounded detection, horizontal displacement and gravity
//! scale transitions.

use platformer_core::movement::{
    apply_movement, compute_is_grounded, movement_frame, record_movement_controller, CanJump,
    CoyoteTime, FrameDelta, GravityScale, Intent, IsGrounded, JumpDelay, JumpEvent, Movement,
    MovementController, Velocity, GRAVITY_ASCEND, GRAVITY_FAST_FALL, GRAVITY_NORMAL, JUMP_IMPULSE,
};
use platformer_core::timer::Timer;

fn apply_one(
    controller: &MovementController,
    speed: u64,
    can_jump: bool,
    velocity: &mut Velocity,
    gravity: &mut GravityScale,
    pos_x: &mut i64,
) {
    let movement = Movement { speed };
    let mut delay = JumpDelay(Timer::new_finished(250_000));
    let mut coyote = CoyoteTime(Timer::new(250_000));
    let delta = FrameDelta { num: 1, den: 60 };
    apply_movement(
        1,
        controller,
        &movement,
        &CanJump(can_jump),
        velocity,
        &mut delay,
        &mut coyote,
        gravity,
        pos_x,
        &delta,
    );
}

#[test]
fn intent_from_no_keys_is_zero() {
    let c = record_movement_controller(false, false, false, false);
    assert_eq!(c.0, Intent { x: 0, y: 0 });
}

#[test]
fn intent_from_single_keys() {
    assert_eq!(record_movement_controller(true, false, false, false).0, Intent { x: 0, y: 1000 });
    assert_eq!(record_movement_controller(false, true, false, false).0, Intent { x: 0, y: -1000 });
    assert_eq!(record_movement_controller(false, false, true, false).0, Intent { x: -1000, y: 0 });
    assert_eq!(record_movement_controller(false, false, false, true).0, Intent { x: 1000, y: 0 });
}

#[test]
fn intent_from_opposed_keys_cancels() {
    let c = record_movement_controller(true, true, true, true);
    assert_eq!(c.0, Intent { x: 0, y: 0 });
}

#[test]
fn grounded_inclusive_boundary() {
    assert!(compute_is_grounded(Some(0), 10_000_000).0);
    assert!(compute_is_grounded(Some(10_000_000), 10_000_000).0);
    assert!(!compute_is_grounded(Some(10_000_001), 10_000_000).0);
    assert!(!compute_is_grounded(None, 10_000_000).0);
}

#[test]
fn horizontal_displacement_exact_per_frame() {
    // speed 420.0 px/s, intent.x 1.0, frame delta 1/60 s: exactly 7.0 px,
    // that is 7_000_000 micro-pixels, per frame.
    let controller = MovementController(Intent { x: 1000, y: 0 });
    let mut velocity = Velocity { y: 0 };
    let mut gravity = GravityScale(1000);
    let mut pos_x: i64 = 0;
    apply_one(&controller, 420_000, false, &mut velocity, &mut gravity, &mut pos_x);
    assert_eq!(pos_x, 7_000_000);
}

#[test]
fn horizontal_displacement_accumulates_linearly() {
    let controller = MovementController(Intent { x: 1000, y: 0 });
    let mut velocity = Velocity { y: 0 };
    let mut gravity = GravityScale(1000);
    let mut pos_x: i64 = 0;
    for _ in 0..60 {
        apply_one(&controller, 420_000, false, &mut velocity, &mut gravity, &mut pos_x);
    }
    // One second of frames advances exactly 420.0 px with no drift.
    assert_eq!(pos_x, 420_000_000);
}

#[test]
fn horizontal_displacement_negative_intent() {
    let controller = MovementController(Intent { x: -1000, y: 0 });
    let mut velocity = Velocity { y: 0 };
    let mut gravity = GravityScale(1000);
    let mut pos_x: i64 = 1_000_000;
    apply_one(&controller, 420_000, false, &mut velocity, &mut gravity, &mut pos_x);
    assert_eq!(pos_x, 1_000_000 - 7_000_000);
}

#[test]
fn horizontal_displacement_truncates_toward_zero() {
    // speed 100.0 px/s at half intent over 1/3 s: 50/3 px truncates to
    // 16.666666 px in micro-pixels, symmetrically for both signs.
    let mut velocity = Velocity { y: 0 };
    let mut gravity = GravityScale(1000);
    let movement = Movement { speed: 100_000 };
    let mut delay = JumpDelay(Timer::new_finished(250_000));
    let mut coyote = CoyoteTime(Timer::new(250_000));
    let delta = FrameDelta { num: 1, den: 3 };
    let mut pos_x: i64 = 0;
    apply_movement(
        1,
        &MovementController(Intent { x: 500, y: 0 }),
        &movement,
        &CanJump(false),
        &mut velocity,
        &mut delay,
        &mut coyote,
        &mut gravity,
        &mut pos_x,
        &delta,
    );
    assert_eq!(pos_x, 16_666_666);
    let mut pos_back: i64 = 0;
    apply_movement(
        1,
        &MovementController(Intent { x: -500, y: 0 }),
        &movement,
        &CanJump(false),
        &mut velocity,
        &mut delay,
        &mut coyote,
        &mut gravity,
        &mut pos_back,
        &delta,
    );
    assert_eq!(pos_back, -16_666_666);
}

#[test]
fn gravity_ascending_with_jump_held() {
    // An executed jump leaves the entity ascending: reduced gravity.
    let controller = MovementController(Intent { x: 0, y: 1000 });
    let mut velocity = Velocity { y: 0 };
    let mut gravity = GravityScale(1000);
    let mut pos_x: i64 = 0;
    apply_one(&controller, 0, true, &mut velocity, &mut gravity, &mut pos_x);
    assert_eq!(gravity.0, GRAVITY_ASCEND);
}

#[test]
fn gravity_normal_once_no_longer_ascending() {
    // Jump still held but vertical velocity at or under the ascent
    // threshold: normal gravity on the next frame.
    let controller = MovementController(Intent { x: 0, y: 1000 });
    let mut velocity = Velocity { y: 100 };
    let mut gravity = GravityScale(500);
    let mut pos_x: i64 = 0;
    apply_one(&controller, 0, false, &mut velocity, &mut gravity, &mut pos_x);
    assert_eq!(gravity.0, GRAVITY_NORMAL);
}

#[test]
fn gravity_fast_fall_on_held_down() {
    // Held downward sets increased gravity regardless of vertical velocity.
    let controller = MovementController(Intent { x: 0, y: -1000 });
    let mut rising = Velocity { y: 500_000 };
    let mut gravity = GravityScale(1000);
    let mut pos_x: i64 = 0;
    apply_one(&controller, 0, false, &mut rising, &mut gravity, &mut pos_x);
    assert_eq!(gravity.0, GRAVITY_FAST_FALL);
    let mut falling = Velocity { y: -500_000 };
    let mut gravity_b = GravityScale(500);
    apply_one(&controller, 0, false, &mut falling, &mut gravity_b, &mut pos_x);
    assert_eq!(gravity_b.0, GRAVITY_FAST_FALL);
}

#[test]
fn gravity_unchanged_in_dead_zone() {
    // Intent inside the dead-zone: the gravity scale of the previous frame
    // persists.
    let controller = MovementController(Intent { x: 0, y: 0 });
    let mut velocity = Velocity { y: -200_000 };
    let mut gravity = GravityScale(500);
    let mut pos_x: i64 = 0;
    apply_one(&controller, 0, false, &mut velocity, &mut gravity, &mut pos_x);
    assert_eq!(gravity.0, 500);
}

#[test]
fn movement_frame_runs_the_chain_in_order() {
    // Eligibility must observe the grounded state written this same frame:
    // a depleted coyote window is refreshed by the fresh ground contact and
    // the jump fires within the same frame.
    let controller = MovementController(Intent { x: 1000, y: 1000 });
    let movement = Movement { speed: 420_000 };
    let mut grounded = IsGrounded(false);
    let mut can = CanJump(false);
    let mut velocity = Velocity { y: 0 };
    let mut delay = JumpDelay(Timer::new_finished(250_000));
    let mut coyote = CoyoteTime(Timer::new(250_000));
    coyote.0.tick(250_000);
    assert!(coyote.0.finished());
    let mut gravity = GravityScale(1000);
    let mut pos_x: i64 = 0;
    let jump = movement_frame(
        3,
        &controller,
        &movement,
        Some(0),
        10_000_000,
        &mut grounded,
        &mut can,
        &mut velocity,
        &mut delay,
        &mut coyote,
        &mut gravity,
        &mut pos_x,
        16_666,
        &FrameDelta { num: 1, den: 60 },
    );
    assert!(grounded.0);
    assert!(can.0);
    assert_eq!(jump, Some(JumpEvent(3)));
    assert_eq!(pos_x, 7_000_000);
    assert_eq!(velocity.y, JUMP_IMPULSE);
    assert_eq!(gravity.0, GRAVITY_ASCEND);
    assert!(coyote.0.finished());
}

#[test]
fn no_jump_without_eligibility() {
    let controller = MovementController(Intent { x: 0, y: 1000 });
    let mut velocity = Velocity { y: 0 };
    let mut gravity = GravityScale(1000);
    let mut pos_x: i64 = 0;
    let movement = Movement { speed: 0 };
    let mut delay = JumpDelay(Timer::new_finished(250_000));
    let mut coyote = CoyoteTime(Timer::new(250_000));
    let delta = FrameDelta { num: 1, den: 60 };
    let jump = apply_movement(
        1,
        &controller,
        &movement,
        &CanJump(false),
        &mut velocity,
        &mut delay,
        &mut coyote,
        &mut gravity,
        &mut pos_x,
        &delta,
    );
    assert_eq!(jump, None);
    assert_eq!(velocity.y, 0);
    assert!(delay.0.finished());
}
