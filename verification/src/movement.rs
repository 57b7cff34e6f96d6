//! Movement state machine: input intent, grounded detection, jump
//! eligibility (jump delay + coyote time), and per-frame movement
//! application.
//!
//! The host loop runs, in this order within one frame: input recording,
//! grounded detection, jump eligibility, movement application. The physics
//! backend supplies the downward shape-cast result and owns vertical
//! integration; this module owns every decision taken on those values.
//!
//! Fixed-point conventions: intent components in milli-units (1000 is one
//! full unit), speeds and velocities in milli-pixels per second, positions in
//! micro-pixels, gravity scale in milli-units, time in microseconds except
//! the kinematic frame delta, which is an exact rational number of seconds.

use vstd::prelude::*;

use crate::timer::{Timer, TimerModel};

verus! {

/// One full unit of input intent, in milli-units.
pub const INTENT_UNIT: i64 = 1000;

/// Dead-zone half-width on the intent axes, in milli-units.
pub const INTENT_DEADZONE: i64 = 10;

/// Vertical velocity set by an executed jump, in milli-pixels per second.
pub const JUMP_IMPULSE: i64 = 600_000;

/// Gravity scale while ascending with the jump held, in milli-units.
pub const GRAVITY_ASCEND: u64 = 500;

/// Gravity scale once no longer ascending, in milli-units.
pub const GRAVITY_NORMAL: u64 = 1000;

/// Gravity scale while fast-falling, in milli-units.
pub const GRAVITY_FAST_FALL: u64 = 1500;

/// Smallest vertical velocity still counted as ascending, in
/// milli-pixels per second.
pub const ASCEND_VELOCITY_MIN: i64 = 100;

/// Largest supported movement speed, in milli-pixels per second.
pub const MAX_SPEED_MILLI: u64 = 1_000_000_000;

/// Normalized 2D input intent, each axis in milli-units within
/// [-INTENT_UNIT, INTENT_UNIT].
#[derive(Clone, Copy, PartialEq, Eq, Structural, Debug)]
pub struct Intent {
    pub x: i64,
    pub y: i64,
}

impl Intent {
    /// Both axes lie within one full unit of intent.
    pub open spec fn is_normalized(self) -> bool {
        &&& -INTENT_UNIT <= self.x <= INTENT_UNIT
        &&& -INTENT_UNIT <= self.y <= INTENT_UNIT
    }
}

/// Per-entity movement intent, rewritten by the input recorder each frame
/// before any consumer reads it.
#[derive(Clone, Copy, PartialEq, Eq, Structural, Debug)]
pub struct MovementController(pub Intent);

/// Ground contact, recomputed every frame from the physics cast.
#[derive(Clone, Copy, PartialEq, Eq, Structural, Debug)]
pub struct IsGrounded(pub bool);

/// Derived jump eligibility, recomputed every frame.
#[derive(Clone, Copy, PartialEq, Eq, Structural, Debug)]
pub struct CanJump(pub bool);

/// Post-jump lockout timer: while it runs, no new jump is recognized.
pub struct JumpDelay(pub Timer);

/// Coyote grace timer: ticks while airborne; while it runs a jump is still
/// accepted shortly after leaving the ground.
pub struct CoyoteTime(pub Timer);

/// Immutable movement configuration: speed in milli-pixels per second.
#[derive(Clone, Copy, PartialEq, Eq, Structural, Debug)]
pub struct Movement {
    pub speed: u64,
}

/// Vertical velocity state owned by the physics backend, in milli-pixels
/// per second.
#[derive(Clone, Copy, PartialEq, Eq, Structural, Debug)]
pub struct Velocity {
    pub y: i64,
}

/// Gravity scale state owned by the physics backend, in milli-units.
#[derive(Clone, Copy, PartialEq, Eq, Structural, Debug)]
pub struct GravityScale(pub u64);

/// Elapsed frame time as the exact rational number of seconds num/den.
#[derive(Clone, Copy, PartialEq, Eq, Structural, Debug)]
pub struct FrameDelta {
    pub num: u64,
    pub den: u64,
}

/// Notification that the carried entity executed a jump this frame.
#[derive(Clone, Copy, PartialEq, Eq, Structural, Debug)]
pub struct JumpEvent(pub u64);

/// Intent on one axis from its two key states, in milli-units.
pub open spec fn spec_axis(positive: bool, negative: bool) -> int {
    (if positive { INTENT_UNIT as int } else { 0 }) - (if negative { INTENT_UNIT as int } else { 0 })
}

/// Sample the directional keys into a normalized intent vector.
pub fn record_movement_controller(up: bool, down: bool, left: bool, right: bool) -> (c: MovementController)
    ensures
        c.0.x == spec_axis(right, left),
        c.0.y == spec_axis(up, down),
        c.0.is_normalized(),
{
    let x: i64 = (if right { INTENT_UNIT } else { 0 }) - (if left { INTENT_UNIT } else { 0 });
    let y: i64 = (if up { INTENT_UNIT } else { 0 }) - (if down { INTENT_UNIT } else { 0 });
    MovementController(Intent { x, y })
}

/// Ground contact decided from a downward shape-cast: an impact at or within
/// the bounded cast distance counts as grounded, a miss never does.
pub open spec fn spec_grounded(hit_distance: Option<u64>, max_distance: u64) -> bool {
    match hit_distance {
        Some(d) => d <= max_distance,
        None => false,
    }
}

/// Decide ground contact from the physics backend's downward shape-cast
/// result: the distance to the first impact in micro-pixels, or `None` on a
/// miss. Zero-distance and exactly-at-boundary contact count as grounded.
pub fn compute_is_grounded(hit_distance: Option<u64>, max_distance: u64) -> (g: IsGrounded)
    ensures
        g.0 == spec_grounded(hit_distance, max_distance),
{
    match hit_distance {
        Some(d) => IsGrounded(d <= max_distance),
        None => IsGrounded(false),
    }
}

/// Jump eligibility derived from the two timers: the coyote window is still
/// open and the post-jump lockout has passed.
pub open spec fn spec_can_jump(delay: TimerModel, coyote: TimerModel) -> bool {
    !coyote.finished() && delay.finished()
}

/// One frame of the eligibility tracker on the timer pair: the delay ticks
/// unconditionally; the coyote window is refreshed when grounded with the
/// lockout over, left alone when grounded during the lockout, and ticked
/// while airborne.
pub open spec fn spec_tick_eligibility(
    delay: TimerModel,
    coyote: TimerModel,
    grounded: bool,
    delta: nat,
) -> (TimerModel, TimerModel) {
    let d = delay.tick(delta);
    let c = if grounded {
        if d.finished() {
            coyote.reset()
        } else {
            coyote
        }
    } else {
        coyote.tick(delta)
    };
    (d, c)
}

/// Advance the jump eligibility tracker by one frame and derive `CanJump`.
///
/// Both timers are advanced before the boolean is derived, so the tie-break
/// when both finish in the same frame needs no ordering argument. Once
/// grounded with the jump delay finished, the coyote window is reset to its
/// full duration regardless of how depleted it was.
pub fn compute_can_jump(
    jump_delay: &mut JumpDelay,
    coyote_time: &mut CoyoteTime,
    is_grounded: &IsGrounded,
    can_jump: &mut CanJump,
    delta_us: u64,
)
    ensures
        final(jump_delay).0@ == spec_tick_eligibility(
            old(jump_delay).0@,
            old(coyote_time).0@,
            is_grounded.0,
            delta_us as nat,
        ).0,
        final(coyote_time).0@ == spec_tick_eligibility(
            old(jump_delay).0@,
            old(coyote_time).0@,
            is_grounded.0,
            delta_us as nat,
        ).1,
        final(can_jump).0 == spec_can_jump(final(jump_delay).0@, final(coyote_time).0@),
        is_grounded.0 && final(jump_delay).0@.finished() ==> final(coyote_time).0@
            == old(coyote_time).0@.reset(),
{
    jump_delay.0.tick(delta_us);
    if is_grounded.0 {
        if jump_delay.0.finished() {
            coyote_time.0.reset();
        }
    } else {
        coyote_time.0.tick(delta_us);
    }
    let new_can_jump = !coyote_time.0.finished() && jump_delay.0.finished();
    if can_jump.0 != new_can_jump {
        can_jump.0 = new_can_jump;
    }
}

/// Signed kinematic displacement for one frame, in micro-pixels:
/// speed * intent / den truncated toward zero, with speed in milli-pixels
/// per second, intent in milli-units and the frame delta num/den seconds.
pub open spec fn spec_displacement(speed: nat, intent_x: int, num: nat, den: nat) -> int
    recommends
        den > 0,
{
    let mag = (speed * (if intent_x >= 0 { intent_x } else { -intent_x }) * num) / (den as int);
    if intent_x >= 0 {
        mag
    } else {
        -mag
    }
}

/// A jump is executed exactly when upward intent clears the dead-zone while
/// jump eligibility holds.
pub open spec fn spec_jump_executed(intent_y: int, can_jump: bool) -> bool {
    intent_y > INTENT_DEADZONE as int && can_jump
}

/// Gravity scale after one movement frame: reduced while ascending with the
/// jump held, normal once falling with the jump held, increased while
/// fast-falling, and untouched inside the dead-zone.
pub open spec fn spec_gravity_after(intent_y: int, vel_y_after: int, before: nat) -> nat {
    if intent_y > INTENT_DEADZONE as int {
        if vel_y_after > ASCEND_VELOCITY_MIN as int {
            GRAVITY_ASCEND as nat
        } else {
            GRAVITY_NORMAL as nat
        }
    } else if intent_y < -INTENT_DEADZONE as int {
        GRAVITY_FAST_FALL as nat
    } else {
        before
    }
}

/// Apply one frame of movement to one entity.
///
/// Horizontal: the position advances by the exact fixed-point displacement
/// speed * intent.x * delta, decoupled from the physics solver. Vertical,
/// only outside the intent dead-zone: an executed jump resets the lockout,
/// consumes the whole coyote window, sets the jump impulse and returns one
/// `JumpEvent`; the gravity scale then follows `spec_gravity_after`, judged
/// on the vertical velocity as it stands after any jump this frame.
pub fn apply_movement(
    entity: u64,
    controller: &MovementController,
    movement: &Movement,
    can_jump: &CanJump,
    velocity: &mut Velocity,
    jump_delay: &mut JumpDelay,
    coyote_time: &mut CoyoteTime,
    gravity: &mut GravityScale,
    pos_x: &mut i64,
    delta: &FrameDelta,
) -> (jump: Option<JumpEvent>)
    requires
        controller.0.is_normalized(),
        movement.speed <= MAX_SPEED_MILLI,
        delta.den > 0,
        -i64::MAX <= spec_displacement(
            movement.speed as nat,
            controller.0.x as int,
            delta.num as nat,
            delta.den as nat,
        ) <= i64::MAX,
        i64::MIN <= *old(pos_x) + spec_displacement(
            movement.speed as nat,
            controller.0.x as int,
            delta.num as nat,
            delta.den as nat,
        ) <= i64::MAX,
    ensures
        *final(pos_x) == *old(pos_x) + spec_displacement(
            movement.speed as nat,
            controller.0.x as int,
            delta.num as nat,
            delta.den as nat,
        ),
        jump == (if spec_jump_executed(controller.0.y as int, can_jump.0) {
            Some(JumpEvent(entity))
        } else {
            None::<JumpEvent>
        }),
        spec_jump_executed(controller.0.y as int, can_jump.0) ==> {
            &&& final(jump_delay).0@ == old(jump_delay).0@.reset()
            &&& final(coyote_time).0@ == old(coyote_time).0@.spent()
            &&& final(velocity).y == JUMP_IMPULSE
        },
        !spec_jump_executed(controller.0.y as int, can_jump.0) ==> {
            &&& final(jump_delay).0@ == old(jump_delay).0@
            &&& final(coyote_time).0@ == old(coyote_time).0@
            &&& *final(velocity) == *old(velocity)
        },
        final(gravity).0 as nat == spec_gravity_after(
            controller.0.y as int,
            final(velocity).y as int,
            old(gravity).0 as nat,
        ),
{
    let ix: i64 = controller.0.x;
    let mag_ix: u128 = if ix >= 0 {
        ix as u128
    } else {
        (-(ix as i128)) as u128
    };
    let sp: u128 = movement.speed as u128;
    assert(sp * mag_ix <= 1_000_000_000_000u128) by (nonlinear_arith)
        requires
            sp <= 1_000_000_000u128,
            mag_ix <= 1000u128,
    ;
    let weighted: u128 = sp * mag_ix;
    let nu: u128 = delta.num as u128;
    assert(weighted * nu <= 1_000_000_000_000u128 * 0xffff_ffff_ffff_ffffu128) by (nonlinear_arith)
        requires
            weighted <= 1_000_000_000_000u128,
            nu <= 0xffff_ffff_ffff_ffffu128,
    ;
    let scaled: u128 = weighted * nu;
    let mag_disp: u128 = scaled / (delta.den as u128);
    assert(mag_disp <= i64::MAX as u128);
    let disp: i64 = if ix >= 0 {
        mag_disp as i64
    } else {
        -(mag_disp as i64)
    };
    *pos_x = *pos_x + disp;

    let mut jump: Option<JumpEvent> = None;
    if controller.0.y > INTENT_DEADZONE {
        if can_jump.0 {
            jump_delay.0.reset();
            let rem: u64 = coyote_time.0.remaining_us();
            coyote_time.0.tick(rem);
            velocity.y = JUMP_IMPULSE;
            jump = Some(JumpEvent(entity));
        }
        if velocity.y > ASCEND_VELOCITY_MIN {
            gravity.0 = GRAVITY_ASCEND;
        } else {
            gravity.0 = GRAVITY_NORMAL;
        }
    } else if controller.0.y < -INTENT_DEADZONE {
        gravity.0 = GRAVITY_FAST_FALL;
    }
    jump
}

/// Run one entity's whole movement chain for one frame, in the strict order
/// the frame demands: grounded detection from this frame's cast result, then
/// jump eligibility over the freshly written grounded state, then movement
/// application over the freshly derived eligibility.
///
/// The contract composes the three stages exactly, so a host that calls this
/// function cannot reorder them.
pub fn movement_frame(
    entity: u64,
    controller: &MovementController,
    movement: &Movement,
    hit_distance: Option<u64>,
    max_distance: u64,
    is_grounded: &mut IsGrounded,
    can_jump: &mut CanJump,
    velocity: &mut Velocity,
    jump_delay: &mut JumpDelay,
    coyote_time: &mut CoyoteTime,
    gravity: &mut GravityScale,
    pos_x: &mut i64,
    delta_us: u64,
    delta: &FrameDelta,
) -> (jump: Option<JumpEvent>)
    requires
        controller.0.is_normalized(),
        movement.speed <= MAX_SPEED_MILLI,
        delta.den > 0,
        -i64::MAX <= spec_displacement(
            movement.speed as nat,
            controller.0.x as int,
            delta.num as nat,
            delta.den as nat,
        ) <= i64::MAX,
        i64::MIN <= *old(pos_x) + spec_displacement(
            movement.speed as nat,
            controller.0.x as int,
            delta.num as nat,
            delta.den as nat,
        ) <= i64::MAX,
    ensures
        final(is_grounded).0 == spec_grounded(hit_distance, max_distance),
        ({
            let ticked = spec_tick_eligibility(
                old(jump_delay).0@,
                old(coyote_time).0@,
                spec_grounded(hit_distance, max_distance),
                delta_us as nat,
            );
            let can = spec_can_jump(ticked.0, ticked.1);
            let jumped = spec_jump_executed(controller.0.y as int, can);
            &&& final(can_jump).0 == can
            &&& jump == (if jumped {
                Some(JumpEvent(entity))
            } else {
                None::<JumpEvent>
            })
            &&& final(jump_delay).0@ == (if jumped {
                ticked.0.reset()
            } else {
                ticked.0
            })
            &&& final(coyote_time).0@ == (if jumped {
                ticked.1.spent()
            } else {
                ticked.1
            })
            &&& final(velocity).y == (if jumped {
                JUMP_IMPULSE as int
            } else {
                old(velocity).y as int
            })
            &&& final(gravity).0 as nat == spec_gravity_after(
                controller.0.y as int,
                final(velocity).y as int,
                old(gravity).0 as nat,
            )
        }),
        *final(pos_x) == *old(pos_x) + spec_displacement(
            movement.speed as nat,
            controller.0.x as int,
            delta.num as nat,
            delta.den as nat,
        ),
{
    *is_grounded = compute_is_grounded(hit_distance, max_distance);
    compute_can_jump(jump_delay, coyote_time, is_grounded, can_jump, delta_us);
    apply_movement(
        entity,
        controller,
        movement,
        can_jump,
        velocity,
        jump_delay,
        coyote_time,
        gravity,
        pos_x,
        delta,
    )
}

/// The eligibility tracker folded over a whole run of frames, each frame a
/// pair of the grounded state observed that frame and its delta in
/// microseconds.
pub open spec fn spec_run_eligibility(
    delay: TimerModel,
    coyote: TimerModel,
    steps: Seq<(bool, nat)>,
) -> (TimerModel, TimerModel)
    decreases steps.len(),
{
    if steps.len() == 0 {
        (delay, coyote)
    } else {
        let next = spec_tick_eligibility(delay, coyote, steps[0].0, steps[0].1);
        spec_run_eligibility(next.0, next.1, steps.drop_first())
    }
}

/// Total time of a run of frames, in microseconds.
pub open spec fn spec_total_time(steps: Seq<(bool, nat)>) -> nat
    decreases steps.len(),
{
    if steps.len() == 0 {
        0
    } else {
        steps[0].1 + spec_total_time(steps.drop_first())
    }
}

proof fn lemma_lockout_run(delay: TimerModel, coyote: TimerModel, steps: Seq<(bool, nat)>)
    requires
        coyote.finished(),
        delay.elapsed + spec_total_time(steps) < delay.duration,
    ensures
        spec_run_eligibility(delay, coyote, steps).1.finished(),
        spec_run_eligibility(delay, coyote, steps).0.duration == delay.duration,
        spec_run_eligibility(delay, coyote, steps).0.elapsed == delay.elapsed + spec_total_time(
            steps,
        ),
    decreases steps.len(),
{
    if steps.len() > 0 {
        let next = spec_tick_eligibility(delay, coyote, steps[0].0, steps[0].1);
        assert(!next.0.finished());
        assert(next.1.finished());
        lemma_lockout_run(next.0, next.1, steps.drop_first());
    }
}

/// Immediately after an executed jump the delay timer stands freshly reset
/// and the coyote window is consumed. For any positive durations, however
/// the following frames alternate grounded and airborne, `CanJump` stays
/// false as long as strictly less than the whole delay duration has ticked
/// by — the lockout holds even if grounded is forced true throughout.
pub proof fn lemma_jump_lockout(d_delay: nat, d_coyote: nat, steps: Seq<(bool, nat)>)
    requires
        d_delay > 0,
        d_coyote > 0,
        spec_total_time(steps) < d_delay,
    ensures
        ({
            let run = spec_run_eligibility(
                TimerModel { duration: d_delay, elapsed: 0 },
                TimerModel { duration: d_coyote, elapsed: d_coyote },
                steps,
            );
            !spec_can_jump(run.0, run.1)
        }),
{
    lemma_lockout_run(
        TimerModel { duration: d_delay, elapsed: 0 },
        TimerModel { duration: d_coyote, elapsed: d_coyote },
        steps,
    );
}

proof fn lemma_airborne_run(delay: TimerModel, coyote: TimerModel, steps: Seq<(bool, nat)>)
    requires
        coyote.elapsed <= coyote.duration,
        forall|i: int| 0 <= i < steps.len() ==> !steps[i].0,
    ensures
        delay.finished() ==> spec_run_eligibility(delay, coyote, steps).0.finished(),
        spec_run_eligibility(delay, coyote, steps).1.duration == coyote.duration,
        spec_run_eligibility(delay, coyote, steps).1.elapsed == (
        if coyote.elapsed + spec_total_time(steps) >= coyote.duration {
            coyote.duration
        } else {
            coyote.elapsed + spec_total_time(steps)
        }),
    decreases steps.len(),
{
    if steps.len() > 0 {
        let next = spec_tick_eligibility(delay, coyote, steps[0].0, steps[0].1);
        let rest = steps.drop_first();
        assert(forall|i: int| 0 <= i < rest.len() ==> !rest[i].0) by {
            assert(forall|i: int| 0 <= i < rest.len() ==> rest[i] == steps[i + 1]);
        }
        assert(spec_total_time(steps) == steps[0].1 + spec_total_time(rest));
        assert(next.1.duration == coyote.duration);
        assert(next.1.elapsed == if coyote.elapsed + steps[0].1 >= coyote.duration {
            coyote.duration
        } else {
            coyote.elapsed + steps[0].1
        });
        lemma_airborne_run(next.0, next.1, rest);
    }
}

/// Coyote grace, the open half: with the window refreshed on leaving the
/// ground (as the tracker does once grounded with the lockout over), a jump
/// requested while strictly less than the whole coyote duration has ticked
/// by airborne finds `CanJump` true, provided the lockout was already over.
pub proof fn lemma_coyote_grace(delay: TimerModel, d_coyote: nat, steps: Seq<(bool, nat)>)
    requires
        delay.finished(),
        d_coyote > 0,
        spec_total_time(steps) < d_coyote,
        forall|i: int| 0 <= i < steps.len() ==> !steps[i].0,
    ensures
        ({
            let run = spec_run_eligibility(
                delay,
                TimerModel { duration: d_coyote, elapsed: 0 },
                steps,
            );
            spec_can_jump(run.0, run.1)
        }),
{
    lemma_airborne_run(delay, TimerModel { duration: d_coyote, elapsed: 0 }, steps);
}

/// Coyote grace, the closed half: once at least the whole coyote duration
/// has ticked by airborne with no jump taken, the window is spent and
/// `CanJump` is false, whatever state the delay timer is in.
pub proof fn lemma_coyote_expired(delay: TimerModel, d_coyote: nat, steps: Seq<(bool, nat)>)
    requires
        spec_total_time(steps) >= d_coyote,
        forall|i: int| 0 <= i < steps.len() ==> !steps[i].0,
    ensures
        ({
            let run = spec_run_eligibility(
                delay,
                TimerModel { duration: d_coyote, elapsed: 0 },
                steps,
            );
            !spec_can_jump(run.0, run.1)
        }),
{
    lemma_airborne_run(delay, TimerModel { duration: d_coyote, elapsed: 0 }, steps);
}

/// A position folded over a whole run of frames that each advance it by the
/// same signed displacement, in micro-pixels.
pub open spec fn spec_run_horizontal(x: int, disp: int, frames: nat) -> int
    decreases frames,
{
    if frames == 0 {
        x
    } else {
        spec_run_horizontal(x + disp, disp, (frames - 1) as nat)
    }
}

/// Horizontal displacement determinism: under constant intent, speed and
/// frame delta every frame advances the position by the same exact
/// displacement (the ensures of `apply_movement`), so a run of frames
/// accumulates linearly with no drift.
pub proof fn lemma_horizontal_accumulation(x: int, disp: int, frames: nat)
    ensures
        spec_run_horizontal(x, disp, frames) == x + frames * disp,
    decreases frames,
{
    if frames > 0 {
        let prior = (frames - 1) as nat;
        lemma_horizontal_accumulation(x + disp, disp, prior);
        assert(spec_run_horizontal(x, disp, frames) == spec_run_horizontal(x + disp, disp, prior));
        assert(prior * disp + disp == frames * disp) by (nonlinear_arith)
            requires
                prior + 1 == frames,
        ;
    } else {
        assert(frames * disp == 0) by (nonlinear_arith)
            requires
                frames == 0,
        ;
    }
}

} // verus!
