use vstd::prelude::*;
use crate::angle::{atan2_fp, atan2_spec, cos_fp, cos_spec, norm_angle, norm_spec, sin_fp, sin_spec};
use crate::entity::{spawn_bullet, Bullet, Player, player_inv, FIRE_COOLDOWN_MS};
use crate::geom::{clamp_pos_spec, rot_x_spec, rot_y_spec};
use crate::motion::{movement_inv, Movement};
use crate::num::{fx, fxdiv, isqrt, lemma_fx_bound, lemma_mul_abs_bound};

verus! {

/// The logical input signals one frame of the player controller consumes.
#[derive(Clone, Copy, PartialEq, Eq, Structural, Debug)]
pub struct InputState {
    pub thrust: bool,
    pub turn_left: bool,
    pub turn_right: bool,
    pub fire: bool,
}

/// Thrust impulse per millisecond of frame time, in fixed-point speed steps
/// (250 world units per second of acceleration).
pub const THRUST_PER_MS: i64 = 250;

/// Deceleration per millisecond while not thrusting (125 units per second).
pub const DECEL_PER_MS: i64 = 125;

/// Turn rate of the look direction, in thousandths of a degree per
/// millisecond (180 degrees per second).
pub const TURN_PER_MS: i64 = 180;

/// The sine-axis component of the player's velocity after one thrust
/// impulse: current velocity at `heading` plus the impulse at
/// `look_direction`.
pub open spec fn thrust_sin_comp(m: Movement, dt: int) -> int {
    fx(250 * dt * sin_spec(m.look_direction as int) + m.speed * sin_spec(m.heading as int), 1000)
}

/// The cosine-axis component of the same combined velocity.
pub open spec fn thrust_cos_comp(m: Movement, dt: int) -> int {
    fx(250 * dt * cos_spec(m.look_direction as int) + m.speed * cos_spec(m.heading as int), 1000)
}

/// One thrust frame: the new velocity is the vector sum of the current
/// velocity and the impulse; its magnitude, capped at the player speed
/// limit, becomes the speed, and its angle becomes the heading.
pub fn thrust_movement(m: &Movement, dt: u64) -> (r: Movement)
    requires
        movement_inv(*m),
        m.speed <= 500_000,
        dt <= 1000,
    ensures
        movement_inv(r),
        0 <= r.speed <= 500_000,
        r.look_direction == m.look_direction,
        r.heading == atan2_spec(thrust_sin_comp(*m, dt as int), thrust_cos_comp(*m, dt as int)),
        ({
            let sc = thrust_sin_comp(*m, dt as int);
            let cc = thrust_cos_comp(*m, dt as int);
            let ss = sc * sc + cc * cc;
            ||| (r.speed == 500_000 && 500_000 * 500_000 <= ss)
            ||| (r.speed * r.speed <= ss < (r.speed + 1) * (r.speed + 1))
        }),
{
    let ds: i64 = THRUST_PER_MS * (dt as i64);
    let sl = sin_fp(m.look_direction);
    let cl = cos_fp(m.look_direction);
    let sh = sin_fp(m.heading);
    let ch = cos_fp(m.heading);
    proof {
        lemma_mul_abs_bound(ds as int, sl as int, 250_000, 1000);
        lemma_mul_abs_bound(ds as int, cl as int, 250_000, 1000);
        lemma_mul_abs_bound(m.speed as int, sh as int, 500_000, 1000);
        lemma_mul_abs_bound(m.speed as int, ch as int, 500_000, 1000);
        lemma_fx_bound(ds as int * sl as int + m.speed as int * sh as int, 1000, 750_000);
        lemma_fx_bound(ds as int * cl as int + m.speed as int * ch as int, 1000, 750_000);
    }
    let sc = fxdiv(ds * sl + m.speed * sh, 1000);
    let cc = fxdiv(ds * cl + m.speed * ch, 1000);
    proof {
        lemma_mul_abs_bound(sc as int, sc as int, 750_000, 750_000);
        lemma_mul_abs_bound(cc as int, cc as int, 750_000, 750_000);
        assert(sc as int * sc as int >= 0 && cc as int * cc as int >= 0) by (nonlinear_arith);
    }
    let ss: i64 = sc * sc + cc * cc;
    let sq: u64 = isqrt(ss as u64);
    let heading = atan2_fp(sc, cc);
    if sq > 500_000 {
        proof {
            assert(500_000 * 500_000 <= sq as int * sq as int) by (nonlinear_arith)
                requires sq > 500_000;
        }
        Movement { speed: 500_000, heading, look_direction: m.look_direction }
    } else {
        Movement { speed: sq as i64, heading, look_direction: m.look_direction }
    }
}

/// The speed after one frame without thrust: reduced by the deceleration,
/// floored at zero.
pub open spec fn decel_speed_spec(speed: int, dt: int) -> int {
    if speed - 125 * dt < 0 {
        0
    } else {
        speed - 125 * dt
    }
}

pub fn decel_movement(m: &Movement, dt: u64) -> (r: Movement)
    requires
        movement_inv(*m),
        dt <= 1000,
    ensures
        movement_inv(r),
        r.speed == decel_speed_spec(m.speed as int, dt as int),
        0 <= r.speed <= m.speed,
        r.heading == m.heading,
        r.look_direction == m.look_direction,
{
    let dec: i64 = DECEL_PER_MS * (dt as i64);
    let speed = if m.speed - dec < 0 { 0 } else { m.speed - dec };
    Movement { speed, heading: m.heading, look_direction: m.look_direction }
}

/// The look direction after the turn keys: left turns forward, right turns
/// back, both at the fixed turn rate; both held together cancel out.
pub open spec fn turned_look_spec(look: int, left: bool, right: bool, dt: int) -> int {
    let d = 180 * dt;
    let a = if left { look + d } else { look };
    let b = if right { a - d } else { a };
    norm_spec(b)
}

pub fn turn_look(m: &Movement, left: bool, right: bool, dt: u64) -> (r: Movement)
    requires
        movement_inv(*m),
        dt <= 1000,
    ensures
        movement_inv(r),
        r.speed == m.speed,
        r.heading == m.heading,
        r.look_direction == turned_look_spec(m.look_direction as int, left, right, dt as int),
{
    let d: i64 = TURN_PER_MS * (dt as i64);
    let a: i64 = if left { m.look_direction + d } else { m.look_direction };
    let b: i64 = if right { a - d } else { a };
    Movement { speed: m.speed, heading: m.heading, look_direction: norm_angle(b) }
}

/// A countdown ticked by one frame: it loses `dt` milliseconds and stops at
/// zero.
pub open spec fn tick_spec(t: int, dt: int) -> int {
    if t <= dt {
        0
    } else {
        t - dt
    }
}

pub fn tick_timer(t: u64, dt: u64) -> (r: u64)
    ensures
        r == tick_spec(t as int, dt as int),
        r <= t,
{
    if t <= dt {
        0
    } else {
        t - dt
    }
}

/// How one frame may change the player's speed: a thrust frame leaves any
/// speed within the cap; a coasting frame never speeds up and never drops
/// below zero.
pub open spec fn speed_step_ok(s0: int, s1: int, thrust: bool) -> bool {
    if thrust {
        0 <= s1 <= 500_000
    } else {
        0 <= s1 <= s0 || s1 == 0
    }
}

/// One frame of the player controller: the fire cooldown ticks
/// unconditionally, the velocity follows the thrust or deceleration rule,
/// the look direction follows the turn keys, and a shot leaves the craft
/// exactly when fire is held with the cooldown expired.
pub open spec fn control_rel(
    p0: Player,
    input: InputState,
    dt: int,
    p1: Player,
    shot: Option<Bullet>,
) -> bool {
    &&& p1.transform == p0.transform
    &&& p1.spawn_timer == p0.spawn_timer
    &&& p1.movement.look_direction == turned_look_spec(
        p0.movement.look_direction as int,
        input.turn_left,
        input.turn_right,
        dt,
    )
    &&& (!input.thrust ==> p1.movement.speed == decel_speed_spec(p0.movement.speed as int, dt)
        && p1.movement.heading == p0.movement.heading)
    &&& (input.thrust ==> p1.movement.heading == atan2_spec(
        thrust_sin_comp(p0.movement, dt),
        thrust_cos_comp(p0.movement, dt),
    ))
    &&& (input.thrust ==> ({
        let sc = thrust_sin_comp(p0.movement, dt);
        let cc = thrust_cos_comp(p0.movement, dt);
        let ss = sc * sc + cc * cc;
        ||| (p1.movement.speed == 500_000 && 500_000 * 500_000 <= ss)
        ||| (p1.movement.speed * p1.movement.speed <= ss
            < (p1.movement.speed + 1) * (p1.movement.speed + 1))
    }))
    &&& ({
        let ticked = tick_spec(p0.fire_cooldown as int, dt);
        if input.fire && ticked == 0 {
            &&& p1.fire_cooldown == 200
            &&& (shot matches Some(b) && crate::entity::bullet_inv(b))
            &&& shot == Some(spawn_bullet_spec(
                p0.transform,
                turned_look_spec(
                    p0.movement.look_direction as int,
                    input.turn_left,
                    input.turn_right,
                    dt,
                ),
            ))
        } else {
            &&& p1.fire_cooldown == ticked
            &&& shot is None
        }
    })
}

pub fn player_control(p: &mut Player, input: InputState, dt: u64) -> (shot: Option<Bullet>)
    requires
        player_inv(*old(p)),
        dt <= 1000,
    ensures
        player_inv(*final(p)),
        speed_step_ok(old(p).movement.speed as int, final(p).movement.speed as int, input.thrust),
        control_rel(*old(p), input, dt as int, *final(p), shot),
{
    let ticked = tick_timer(p.fire_cooldown, dt);
    p.fire_cooldown = ticked;
    let moved = if input.thrust {
        thrust_movement(&p.movement, dt)
    } else {
        decel_movement(&p.movement, dt)
    };
    let turned = turn_look(&moved, input.turn_left, input.turn_right, dt);
    p.movement = turned;
    if input.fire && ticked == 0 {
        let b = spawn_bullet(&p.transform, p.movement.look_direction);
        p.fire_cooldown = FIRE_COOLDOWN_MS;
        Some(b)
    } else {
        None
    }
}

/// What `spawn_bullet` builds, at the spec level.
pub open spec fn spawn_bullet_spec(t: crate::geom::Transform, look: int) -> Bullet {
    Bullet {
        transform: crate::geom::Transform {
            x: clamp_pos_spec(t.x + rot_x_spec(t.rot as int, 0, 1000)) as i64,
            y: clamp_pos_spec(t.y + rot_y_spec(t.rot as int, 0, 1000)) as i64,
            rot: t.rot,
        },
        movement: Movement { speed: 700_000, heading: look as i64, look_direction: look as i64 },
    }
}

/// After any run of frames, a player speed that starts within the cap stays
/// within it and never turns negative: thrust frames land inside the cap
/// and coasting frames only slow the craft down.
pub proof fn lemma_speed_bounded_over_frames(speeds: Seq<int>, thrusts: Seq<bool>)
    requires
        speeds.len() == thrusts.len() + 1,
        0 <= speeds[0] <= 500_000,
        forall|i: int|
            0 <= i < thrusts.len() ==> speed_step_ok(speeds[i], speeds[i + 1], thrusts[i]),
    ensures
        forall|i: int| 0 <= i < speeds.len() ==> 0 <= #[trigger] speeds[i] <= 500_000,
    decreases speeds.len(),
{
    if thrusts.len() > 0 {
        let pre = speeds.drop_last();
        let pth = thrusts.drop_last();
        assert forall|i: int| 0 <= i < pth.len() implies speed_step_ok(
            pre[i],
            pre[i + 1],
            #[trigger] pth[i],
        ) by {
            assert(speed_step_ok(speeds[i], speeds[i + 1], thrusts[i]));
        }
        lemma_speed_bounded_over_frames(pre, pth);
        assert forall|i: int| 0 <= i < speeds.len() implies 0 <= #[trigger] speeds[i]
            <= 500_000 by {
            if i < speeds.len() - 1 {
                assert(0 <= pre[i] <= 500_000);
            } else {
                assert(0 <= pre[i - 1] <= 500_000);
                assert(speed_step_ok(speeds[i - 1], speeds[i], thrusts[i - 1]));
            }
        }
    }
}

} // verus!
