use vstd::prelude::*;
use crate::angle::{norm_angle, norm_spec};
use crate::geom::{clamp_pos, clamp_pos_spec, rot_x_spec, rot_y_spec, rotate, transform_ok, Transform};
use crate::bounds::{ARENA_HEIGHT, ARENA_WIDTH, HALF_HEIGHT, HALF_WIDTH};
use crate::motion::{movement_inv, Movement, PLAYER_MAX_SPEED};
use crate::rng::{lerp_unit, random_unit, EntropyError};

verus! {

// Entity sprite extents, in fixed-point world units.
pub const PLAYER_WIDTH: i64 = 42_000;

pub const PLAYER_HEIGHT: i64 = 75_000;

pub const ENEMY_WIDTH: i64 = 35_000;

pub const ENEMY_HEIGHT: i64 = 50_000;

pub const BULLET_WIDTH: i64 = 5_000;

pub const BULLET_HEIGHT: i64 = 17_000;

/// Bullets fly at a fixed speed and are exempt from the boundary wrap.
pub const BULLET_SPEED: i64 = 700_000;

/// The fire cooldown: one shot each fifth of a second.
pub const FIRE_COOLDOWN_MS: u64 = 200;

/// The enemy wave timer: one wave every ten seconds.
pub const SPAWN_PERIOD_MS: u64 = 10_000;

/// An enemy craft. Its health is 0, 1 or 2; a killed enemy with positive
/// health splits into two children one health step lower.
#[derive(Clone, Copy, PartialEq, Eq, Structural, Debug)]
pub struct Enemy {
    pub transform: Transform,
    pub movement: Movement,
    pub health: u32,
}

pub open spec fn enemy_inv(e: Enemy) -> bool {
    &&& transform_ok(e.transform)
    &&& movement_inv(e.movement)
    &&& e.health <= 2
}

impl Enemy {
    /// The sprite used for an enemy of the given health.
    pub fn get_asset_path(health: u32) -> (r: &'static str)
        ensures
            health == 2 ==> r@ == "enemy-big.png"@,
            health == 1 ==> r@ == "enemy-medium.png"@,
            health == 0 ==> r@ == "enemy-small.png"@,
            health > 2 ==> r@ == ""@,
    {
        match health {
            2 => "enemy-big.png",
            1 => "enemy-medium.png",
            0 => "enemy-small.png",
            _ => "",
        }
    }
}

/// A bullet in flight.
#[derive(Clone, Copy, PartialEq, Eq, Structural, Debug)]
pub struct Bullet {
    pub transform: Transform,
    pub movement: Movement,
}

pub open spec fn bullet_inv(b: Bullet) -> bool {
    &&& transform_ok(b.transform)
    &&& movement_inv(b.movement)
    &&& b.movement.speed == BULLET_SPEED
}

/// The player's craft, with its fire-cooldown and enemy-wave countdowns in
/// milliseconds of remaining time.
#[derive(Clone, Copy, PartialEq, Eq, Structural, Debug)]
pub struct Player {
    pub transform: Transform,
    pub movement: Movement,
    pub fire_cooldown: u64,
    pub spawn_timer: u64,
}

pub open spec fn player_inv(p: Player) -> bool {
    &&& transform_ok(p.transform)
    &&& movement_inv(p.movement)
    &&& p.movement.speed <= PLAYER_MAX_SPEED
    &&& p.fire_cooldown <= FIRE_COOLDOWN_MS
    &&& p.spawn_timer <= SPAWN_PERIOD_MS
}

impl Player {
    /// What `Player::new` builds, at the spec level.
    pub open spec fn new_spec() -> Player {
        Player {
            transform: Transform { x: 0, y: 0, rot: 0 },
            movement: Movement { speed: 0, heading: 0, look_direction: 0 },
            fire_cooldown: 0,
            spawn_timer: 10_000,
        }
    }

    /// The fresh player: centred, at rest, able to fire at once, with the
    /// wave timer full.
    pub fn new() -> (p: Player)
        ensures
            p == (Player {
                transform: Transform { x: 0, y: 0, rot: 0 },
                movement: Movement { speed: 0, heading: 0, look_direction: 0 },
                fire_cooldown: 0,
                spawn_timer: 10_000,
            }),
            player_inv(p),
    {
        Player {
            transform: Transform { x: 0, y: 0, rot: 0 },
            movement: Movement { speed: 0, heading: 0, look_direction: 0 },
            fire_cooldown: 0,
            spawn_timer: SPAWN_PERIOD_MS,
        }
    }
}

/// A freshly randomized movement as the spawn logic draws it: speed mapped
/// onto `[200, 500]` world units per second, heading uniform over the turn,
/// and the look direction equal to the heading.
pub fn random_movement() -> (r: Result<Movement, EntropyError>)
    ensures
        r matches Ok(m) ==> movement_inv(m) && 200_000 <= m.speed <= 500_000
            && m.look_direction == m.heading,
{
    let us = match random_unit() {
        Ok(u) => u,
        Err(e) => {
            return Err(e);
        },
    };
    let uh = match random_unit() {
        Ok(u) => u,
        Err(e) => {
            return Err(e);
        },
    };
    let speed = lerp_unit(us, 200_000, 300_000);
    let heading = norm_angle(lerp_unit(uh, 0, 360_000));
    Ok(Movement { speed, heading, look_direction: heading })
}

/// The spawn-time arena correction: a coordinate outside the half-extent is
/// moved one full arena span toward the centre. This is not the per-frame
/// boundary wrap; it runs only when an enemy is placed.
pub open spec fn arena_shift_spec(v: int, half: int, span: int) -> int {
    if v > half {
        v - span
    } else if v < -half {
        v + span
    } else {
        v
    }
}

fn arena_shift(v: i64, half: i64, span: i64) -> (r: i64)
    requires
        0 < half <= 600_000,
        span == 2 * half,
        -1_002_000_000 <= v <= 1_002_000_000,
    ensures
        r == arena_shift_spec(v as int, half as int, span as int),
{
    if v > half {
        v - span
    } else if v < -half {
        v + span
    } else {
        v
    }
}

/// The angle of a wave spawn, from a unit draw.
pub open spec fn spawn_angle_spec(u: int) -> int {
    norm_spec(u * 360)
}

/// The distance of a wave spawn from the player, from a unit draw: between
/// 200 and 520 world units.
pub open spec fn spawn_dist_spec(u: int) -> int {
    200_000 + u * 320_000 / 1000
}

/// Where a wave enemy lands: the polar offset `(dist, angle)` carried into
/// the player's frame, added to the player's position, shifted back into
/// the arena and saturated at the safety limit.
pub open spec fn spawn_x_spec(t: Transform, ua: int, ud: int) -> int {
    let ang = spawn_angle_spec(ua);
    let d = spawn_dist_spec(ud);
    let ox = rot_x_spec(ang, d, 0);
    let oy = rot_y_spec(ang, d, 0);
    clamp_pos_spec(arena_shift_spec(t.x + rot_x_spec(t.rot as int, ox, oy), 540_000, 1_080_000))
}

pub open spec fn spawn_y_spec(t: Transform, ua: int, ud: int) -> int {
    let ang = spawn_angle_spec(ua);
    let d = spawn_dist_spec(ud);
    let ox = rot_x_spec(ang, d, 0);
    let oy = rot_y_spec(ang, d, 0);
    clamp_pos_spec(arena_shift_spec(t.y + rot_y_spec(t.rot as int, ox, oy), 360_000, 720_000))
}

/// Build the wave enemy placed around the player from two unit draws and a
/// randomized movement: full health, at the drawn polar offset.
pub fn enemy_from_draws(player_t: &Transform, ua: u64, ud: u64, m: Movement) -> (e: Enemy)
    requires
        transform_ok(*player_t),
        ua <= 1000,
        ud <= 1000,
        movement_inv(m),
    ensures
        e.health == 2,
        e.movement == m,
        e.transform.rot == player_t.rot,
        e.transform.x == spawn_x_spec(*player_t, ua as int, ud as int),
        e.transform.y == spawn_y_spec(*player_t, ua as int, ud as int),
        enemy_inv(e),
{
    let ang = norm_angle((ua as i64) * 360);
    let d = lerp_unit(ud, 200_000, 320_000);
    let (ox, oy) = rotate(ang, d, 0);
    let (wx, wy) = rotate(player_t.rot, ox, oy);
    let x = clamp_pos(arena_shift(player_t.x + wx, HALF_WIDTH, ARENA_WIDTH));
    let y = clamp_pos(arena_shift(player_t.y + wy, HALF_HEIGHT, ARENA_HEIGHT));
    Enemy {
        transform: Transform { x, y, rot: player_t.rot },
        movement: m,
        health: 2,
    }
}

/// Draw a complete wave enemy around the player: distance, then angle, then
/// movement, as independent draws.
pub fn spawn_enemy_around(player_t: &Transform) -> (r: Result<Enemy, EntropyError>)
    requires
        transform_ok(*player_t),
    ensures
        r matches Ok(e) ==> enemy_inv(e) && e.health == 2 && 200_000 <= e.movement.speed
            <= 500_000 && e.movement.look_direction == e.movement.heading,
{
    let ud = match random_unit() {
        Ok(u) => u,
        Err(e) => {
            return Err(e);
        },
    };
    let ua = match random_unit() {
        Ok(u) => u,
        Err(e) => {
            return Err(e);
        },
    };
    let m = match random_movement() {
        Ok(m) => m,
        Err(e) => {
            return Err(e);
        },
    };
    Ok(enemy_from_draws(player_t, ua, ud, m))
}

/// The two children of a split: both stand at the parent's exact transform
/// with one health step less and independently randomized movements.
pub fn split_children(parent: &Enemy) -> (r: Result<(Enemy, Enemy), EntropyError>)
    requires
        enemy_inv(*parent),
        parent.health > 0,
    ensures
        r matches Ok(c) ==> {
            &&& c.0.transform == parent.transform
            &&& c.1.transform == parent.transform
            &&& c.0.health == parent.health - 1
            &&& c.1.health == parent.health - 1
            &&& enemy_inv(c.0)
            &&& enemy_inv(c.1)
        },
{
    let m1 = match random_movement() {
        Ok(m) => m,
        Err(e) => {
            return Err(e);
        },
    };
    let m2 = match random_movement() {
        Ok(m) => m,
        Err(e) => {
            return Err(e);
        },
    };
    Ok((
        Enemy { transform: parent.transform, movement: m1, health: parent.health - 1 },
        Enemy { transform: parent.transform, movement: m2, health: parent.health - 1 },
    ))
}

/// The bullet the player fires: spawned one world unit ahead of the craft
/// in its facing direction, flying at the fixed bullet speed along the
/// player's look direction.
pub fn spawn_bullet(t: &Transform, look: i64) -> (b: Bullet)
    requires
        transform_ok(*t),
        0 <= look < 360_000,
    ensures
        b.movement == (Movement { speed: 700_000, heading: look, look_direction: look }),
        b.transform.rot == t.rot,
        b.transform.x == clamp_pos_spec(t.x + rot_x_spec(t.rot as int, 0, 1000)),
        b.transform.y == clamp_pos_spec(t.y + rot_y_spec(t.rot as int, 0, 1000)),
        bullet_inv(b),
{
    let (ox, oy) = rotate(t.rot, 0, 1000);
    Bullet {
        transform: Transform { x: clamp_pos(t.x + ox), y: clamp_pos(t.y + oy), rot: t.rot },
        movement: Movement { speed: BULLET_SPEED, heading: look, look_direction: look },
    }
}

} // verus!
