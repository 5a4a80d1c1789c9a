use vstd::prelude::*;
use crate::geom::{clamp_pos, clamp_pos_spec, pos_ok, rotate, rot_x_spec, rot_y_spec, Transform};
use crate::num::{lemma_div_bound, lemma_mul_abs_bound};
use vstd::arithmetic::mul::lemma_mul_nonnegative;

verus! {

/// Fastest any entity moves, in fixed-point units per second (the bullets).
pub const MAX_SPEED: i64 = 700_000;

/// Cap on the player's speed.
pub const PLAYER_MAX_SPEED: i64 = 500_000;

/// Velocity state of an entity. `heading` is the direction of travel;
/// `look_direction` is the direction the entity faces and shoots, decoupled
/// from the heading so the craft can drift one way while aiming another.
#[derive(Clone, Copy, PartialEq, Eq, Structural, Debug)]
pub struct Movement {
    pub speed: i64,
    pub heading: i64,
    pub look_direction: i64,
}

pub open spec fn movement_inv(m: Movement) -> bool {
    &&& 0 <= m.speed <= MAX_SPEED
    &&& 0 <= m.heading < 360_000
    &&& 0 <= m.look_direction < 360_000
}

impl Default for Movement {
    /// At rest, travelling and facing straight up.
    fn default() -> (m: Movement)
        ensures
            m == (Movement { speed: 0, heading: 0, look_direction: 0 }),
            movement_inv(m),
    {
        Movement { speed: 0, heading: 0, look_direction: 0 }
    }
}

/// How far a movement carries in `dt` milliseconds, in fixed-point steps.
pub open spec fn step_dist_spec(speed: int, dt: int) -> int {
    speed * dt / 1000
}

/// One motion-integration step: the position advances by `speed * dt` along
/// `heading`, the rendered rotation becomes `look_direction`, and each
/// coordinate saturates at the safety limit.
pub open spec fn integrate_spec(t: Transform, m: Movement, dt: int) -> Transform {
    let d = step_dist_spec(m.speed as int, dt);
    Transform {
        x: clamp_pos_spec(t.x + rot_x_spec(m.heading as int, 0, d)) as i64,
        y: clamp_pos_spec(t.y + rot_y_spec(m.heading as int, 0, d)) as i64,
        rot: m.look_direction,
    }
}

/// Advance one entity's transform by one frame of its movement.
pub fn integrate(t: &Transform, m: &Movement, dt: u64) -> (r: Transform)
    requires
        movement_inv(*m),
        pos_ok(*t),
        dt <= 1000,
    ensures
        r == integrate_spec(*t, *m, dt as int),
        pos_ok(r),
        m.speed == 0 ==> r.x == t.x && r.y == t.y,
        -700_000 <= r.x - t.x <= 700_000,
        -700_000 <= r.y - t.y <= 700_000,
{
    proof {
        lemma_mul_abs_bound(m.speed as int, dt as int, 700_000, 1000);
        lemma_mul_nonnegative(m.speed as int, dt as int);
        lemma_div_bound(m.speed as int * dt as int, 1000, 700_000);
    }
    let d: i64 = (m.speed * dt as i64) / 1000;
    let (dx, dy) = rotate(m.heading, 0, d);
    Transform {
        x: clamp_pos(t.x + dx),
        y: clamp_pos(t.y + dy),
        rot: m.look_direction,
    }
}

} // verus!
