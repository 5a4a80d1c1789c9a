use vstd::prelude::*;
use crate::bounds::{outside_arena, outside_arena_spec, warp_transform, warp_transform_spec};
use crate::collision::{check_collision, collides_spec};
use crate::entity::{bullet_inv, enemy_inv, Bullet, Enemy, Player, BULLET_HEIGHT, BULLET_WIDTH, ENEMY_HEIGHT, ENEMY_WIDTH, PLAYER_HEIGHT, PLAYER_WIDTH, SPAWN_PERIOD_MS};
use crate::geom::{clamp_pos, clamp_pos_spec, rot_x_spec, rot_y_spec, rotate, Transform};
use crate::motion::{integrate, integrate_spec};
use crate::num::lemma_mul_abs_bound;
use crate::entity::{random_movement, spawn_enemy_around};
use crate::player::{control_rel, player_control, tick_spec, tick_timer, InputState};
use crate::rng::EntropyError;
use crate::world::{world_inv, GameState, World};

verus! {

/// What motion does to one enemy in one frame.
pub open spec fn moved_enemy_spec(e: Enemy, dt: int) -> Enemy {
    Enemy {
        transform: integrate_spec(e.transform, e.movement, dt),
        movement: e.movement,
        health: e.health,
    }
}

/// What motion does to one bullet in one frame.
pub open spec fn moved_bullet_spec(b: Bullet, dt: int) -> Bullet {
    Bullet { transform: integrate_spec(b.transform, b.movement, dt), movement: b.movement }
}

fn integrate_enemies(es: &Vec<Enemy>, dt: u64) -> (out: Vec<Enemy>)
    requires
        forall|i: int| 0 <= i < es@.len() ==> enemy_inv(#[trigger] es@[i]),
        dt <= 1000,
    ensures
        out@.len() == es@.len(),
        forall|i: int|
            0 <= i < es@.len() ==> #[trigger] out@[i] == moved_enemy_spec(es@[i], dt as int),
        forall|i: int| 0 <= i < out@.len() ==> enemy_inv(#[trigger] out@[i]),
{
    let mut out: Vec<Enemy> = Vec::new();
    let mut i: usize = 0;
    while i < es.len()
        invariant
            i <= es@.len(),
            out@.len() == i,
            forall|j: int| 0 <= j < es@.len() ==> enemy_inv(#[trigger] es@[j]),
            dt <= 1000,
            forall|j: int|
                0 <= j < i ==> #[trigger] out@[j] == moved_enemy_spec(es@[j], dt as int),
            forall|j: int| 0 <= j < i ==> enemy_inv(#[trigger] out@[j]),
        decreases es@.len() - i,
    {
        let e = es[i];
        let t = integrate(&e.transform, &e.movement, dt);
        out.push(Enemy { transform: t, movement: e.movement, health: e.health });
        i = i + 1;
    }
    out
}

fn integrate_bullets(bs: &Vec<Bullet>, dt: u64) -> (out: Vec<Bullet>)
    requires
        forall|i: int| 0 <= i < bs@.len() ==> bullet_inv(#[trigger] bs@[i]),
        dt <= 1000,
    ensures
        out@.len() == bs@.len(),
        forall|i: int|
            0 <= i < bs@.len() ==> #[trigger] out@[i] == moved_bullet_spec(bs@[i], dt as int),
        forall|i: int| 0 <= i < out@.len() ==> bullet_inv(#[trigger] out@[i]),
{
    let mut out: Vec<Bullet> = Vec::new();
    let mut i: usize = 0;
    while i < bs.len()
        invariant
            i <= bs@.len(),
            out@.len() == i,
            forall|j: int| 0 <= j < bs@.len() ==> bullet_inv(#[trigger] bs@[j]),
            dt <= 1000,
            forall|j: int|
                0 <= j < i ==> #[trigger] out@[j] == moved_bullet_spec(bs@[j], dt as int),
            forall|j: int| 0 <= j < i ==> bullet_inv(#[trigger] out@[j]),
        decreases bs@.len() - i,
    {
        let b = bs[i];
        let t = integrate(&b.transform, &b.movement, dt);
        out.push(Bullet { transform: t, movement: b.movement });
        i = i + 1;
    }
    out
}

/// Motion integration for every movement-bearing entity: player, enemies
/// and bullets advance along their headings; nothing is created or
/// destroyed.
pub fn sprite_movement(w: &mut World, dt: u64)
    requires
        world_inv(*old(w)),
        dt <= 1000,
    ensures
        world_inv(*final(w)),
        final(w).state == old(w).state,
        final(w).score == old(w).score,
        final(w).name@ == old(w).name@,
        final(w).background == old(w).background,
        old(w).player is None ==> final(w).player is None,
        old(w).player matches Some(p) ==> final(w).player == Some(
            Player {
                transform: integrate_spec(p.transform, p.movement, dt as int),
                movement: p.movement,
                fire_cooldown: p.fire_cooldown,
                spawn_timer: p.spawn_timer,
            },
        ),
        final(w).enemies@.len() == old(w).enemies@.len(),
        forall|i: int|
            0 <= i < old(w).enemies@.len() ==> #[trigger] final(w).enemies@[i]
                == moved_enemy_spec(old(w).enemies@[i], dt as int),
        final(w).bullets@.len() == old(w).bullets@.len(),
        forall|i: int|
            0 <= i < old(w).bullets@.len() ==> #[trigger] final(w).bullets@[i]
                == moved_bullet_spec(old(w).bullets@[i], dt as int),
{
    let new_enemies = integrate_enemies(&w.enemies, dt);
    let new_bullets = integrate_bullets(&w.bullets, dt);
    w.enemies = new_enemies;
    w.bullets = new_bullets;
    match w.player {
        Some(p) => {
            let t = integrate(&p.transform, &p.movement, dt);
            w.player = Some(
                Player {
                    transform: t,
                    movement: p.movement,
                    fire_cooldown: p.fire_cooldown,
                    spawn_timer: p.spawn_timer,
                },
            );
        },
        None => {},
    }
}

/// What the wrap does to one enemy.
pub open spec fn warped_enemy_spec(e: Enemy) -> Enemy {
    Enemy { transform: warp_transform_spec(e.transform), movement: e.movement, health: e.health }
}

/// The boundary wrap: the player and the enemies wrap across the arena
/// edges; bullets are boundary-exempt and fly on.
pub fn warp_system(w: &mut World)
    requires
        world_inv(*old(w)),
    ensures
        world_inv(*final(w)),
        final(w).state == old(w).state,
        final(w).score == old(w).score,
        final(w).name@ == old(w).name@,
        final(w).background == old(w).background,
        old(w).player is None ==> final(w).player is None,
        old(w).player matches Some(p) ==> final(w).player == Some(
            Player {
                transform: warp_transform_spec(p.transform),
                movement: p.movement,
                fire_cooldown: p.fire_cooldown,
                spawn_timer: p.spawn_timer,
            },
        ),
        final(w).enemies@.len() == old(w).enemies@.len(),
        forall|i: int|
            0 <= i < old(w).enemies@.len() ==> #[trigger] final(w).enemies@[i]
                == warped_enemy_spec(old(w).enemies@[i]),
        final(w).bullets@ == old(w).bullets@,
{
    let mut out: Vec<Enemy> = Vec::new();
    let mut i: usize = 0;
    while i < w.enemies.len()
        invariant
            i <= w.enemies@.len(),
            out@.len() == i,
            w.enemies@ == old(w).enemies@,
            forall|j: int| 0 <= j < w.enemies@.len() ==> enemy_inv(#[trigger] w.enemies@[j]),
            forall|j: int|
                0 <= j < i ==> #[trigger] out@[j] == warped_enemy_spec(w.enemies@[j]),
            forall|j: int| 0 <= j < i ==> enemy_inv(#[trigger] out@[j]),
        decreases w.enemies@.len() - i,
    {
        let e = w.enemies[i];
        let t = warp_transform(&e.transform);
        out.push(Enemy { transform: t, movement: e.movement, health: e.health });
        i = i + 1;
    }
    w.enemies = out;
    match w.player {
        Some(p) => {
            let t = warp_transform(&p.transform);
            w.player = Some(
                Player {
                    transform: t,
                    movement: p.movement,
                    fire_cooldown: p.fire_cooldown,
                    spawn_timer: p.spawn_timer,
                },
            );
        },
        None => {},
    }
}

/// The bullets that survive the out-of-bounds cleanup, in their original
/// order.
pub open spec fn retained_bullets_spec(bs: Seq<Bullet>) -> Seq<Bullet>
    decreases bs.len(),
{
    if bs.len() == 0 {
        Seq::empty()
    } else {
        retained_bullets_spec(bs.drop_last()) + (if outside_arena_spec(bs.last().transform) {
            Seq::empty()
        } else {
            seq![bs.last()]
        })
    }
}

/// Destroy every boundary-exempt entity that has left the arena: a bullet
/// fully outside is spent, not wrapped.
pub fn cleanup(w: &mut World)
    requires
        world_inv(*old(w)),
    ensures
        world_inv(*final(w)),
        final(w).state == old(w).state,
        final(w).score == old(w).score,
        final(w).name@ == old(w).name@,
        final(w).background == old(w).background,
        final(w).player == old(w).player,
        final(w).enemies@ == old(w).enemies@,
        final(w).bullets@ == retained_bullets_spec(old(w).bullets@),
{
    let mut out: Vec<Bullet> = Vec::new();
    let mut i: usize = 0;
    while i < w.bullets.len()
        invariant
            i <= w.bullets@.len(),
            w.bullets@ == old(w).bullets@,
            forall|j: int| 0 <= j < w.bullets@.len() ==> bullet_inv(#[trigger] w.bullets@[j]),
            out@ == retained_bullets_spec(w.bullets@.subrange(0, i as int)),
            forall|j: int| 0 <= j < out@.len() ==> bullet_inv(#[trigger] out@[j]),
        decreases w.bullets@.len() - i,
    {
        let b = w.bullets[i];
        proof {
            let pre = w.bullets@.subrange(0, i as int);
            let cur = w.bullets@.subrange(0, i + 1 as int);
            assert(cur.drop_last() =~= pre);
            assert(cur.last() == w.bullets@[i as int]);
        }
        if !outside_arena(&b.transform) {
            out.push(b);
        }
        i = i + 1;
    }
    proof {
        assert(w.bullets@.subrange(0, w.bullets@.len() as int) =~= w.bullets@);
    }
    w.bullets = out;
}

/// Where the player's hit box sits: the sprite hangs from its top-centre
/// anchor, so the box centre is half the sprite height below the craft's
/// position in its own frame, turned to the look direction.
pub open spec fn player_center_spec(p: Player) -> Transform {
    Transform {
        x: clamp_pos_spec(p.transform.x + rot_x_spec(p.transform.rot as int, 0, -37_500)) as i64,
        y: clamp_pos_spec(p.transform.y + rot_y_spec(p.transform.rot as int, 0, -37_500)) as i64,
        rot: p.movement.look_direction,
    }
}

/// The cheap centre-distance pre-filter of the player/enemy check: the full
/// test runs only when the centres are within the sum of the two
/// half-diagonal-like radii.
pub open spec fn player_enemy_prefilter(c: Transform, e: Enemy) -> bool {
    let dx = e.transform.x - c.x;
    let dy = e.transform.y - c.y;
    dx * dx + dy * dy < 62_500 * 62_500
}

/// One confirmed player/enemy overlap.
pub open spec fn player_hit_by(p: Player, e: Enemy) -> bool {
    let c = player_center_spec(p);
    &&& player_enemy_prefilter(c, e)
    &&& collides_spec(
        c,
        42_000,
        75_000,
        p.movement.look_direction as int,
        e.transform,
        35_000,
        50_000,
        e.movement.look_direction as int,
    )
}

pub open spec fn any_player_hit(p: Player, es: Seq<Enemy>) -> bool {
    exists|j: int| 0 <= j < es.len() && player_hit_by(p, #[trigger] es[j])
}

/// Whether any enemy overlaps the player this frame. Without a live player
/// the check quietly reports nothing.
pub fn player_hits(w: &World) -> (hit: bool)
    requires
        world_inv(*w),
    ensures
        hit == (w.player matches Some(p) && any_player_hit(p, w.enemies@)),
{
    match w.player {
        Some(p) => {
            let (ox, oy) = rotate(p.transform.rot, 0, -37_500);
            let c = Transform {
                x: clamp_pos(p.transform.x + ox),
                y: clamp_pos(p.transform.y + oy),
                rot: p.movement.look_direction,
            };
            let mut j: usize = 0;
            while j < w.enemies.len()
                invariant
                    j <= w.enemies@.len(),
                    world_inv(*w),
                    w.player == Some(p),
                    c == player_center_spec(p),
                    forall|k: int| 0 <= k < j ==> !player_hit_by(p, #[trigger] w.enemies@[k]),
                decreases w.enemies@.len() - j,
            {
                let e = w.enemies[j];
                let dx = e.transform.x - c.x;
                let dy = e.transform.y - c.y;
                proof {
                    lemma_mul_abs_bound(dx as int, dx as int, 2_000_000_000, 2_000_000_000);
                    lemma_mul_abs_bound(dy as int, dy as int, 2_000_000_000, 2_000_000_000);
                }
                if dx * dx + dy * dy < 62_500 * 62_500 {
                    if check_collision(
                        &c,
                        PLAYER_WIDTH,
                        PLAYER_HEIGHT,
                        p.movement.look_direction,
                        &e.transform,
                        ENEMY_WIDTH,
                        ENEMY_HEIGHT,
                        e.movement.look_direction,
                    ) {
                        return true;
                    }
                }
                j = j + 1;
            }
            false
        },
        None => false,
    }
}

/// The ten-second wave timer on the player ticks every frame; when it
/// runs out, one wave enemy is drawn around the player's current position
/// and the timer refills. The drawn enemy is handed back to join the world
/// at end of frame. Without a live player the tick quietly does nothing.
pub fn enemy_spawner(w: &mut World, dt: u64) -> (r: Result<Option<Enemy>, EntropyError>)
    requires
        world_inv(*old(w)),
        dt <= 1000,
    ensures
        world_inv(*final(w)),
        r is Err ==> *final(w) == *old(w),
        final(w).state == old(w).state,
        final(w).score == old(w).score,
        final(w).name@ == old(w).name@,
        final(w).background == old(w).background,
        final(w).enemies@ == old(w).enemies@,
        final(w).bullets@ == old(w).bullets@,
        old(w).player is None ==> final(w).player is None && r == Ok::<
            Option<Enemy>,
            EntropyError,
        >(None),
        old(w).player matches Some(p) ==> {
            let ticked = tick_spec(p.spawn_timer as int, dt as int);
            if ticked > 0 {
                &&& r == Ok::<Option<Enemy>, EntropyError>(None)
                &&& final(w).player == Some(
                    Player {
                        transform: p.transform,
                        movement: p.movement,
                        fire_cooldown: p.fire_cooldown,
                        spawn_timer: ticked as u64,
                    },
                )
            } else {
                &&& (r matches Ok(o) ==> (o matches Some(e) && enemy_inv(e) && e.health == 2
                    && 200_000 <= e.movement.speed <= 500_000 && e.movement.look_direction
                    == e.movement.heading))
                &&& (r is Ok ==> final(w).player == Some(
                    Player {
                        transform: p.transform,
                        movement: p.movement,
                        fire_cooldown: p.fire_cooldown,
                        spawn_timer: 10_000,
                    },
                ))
            }
        },
{
    match w.player {
        None => Ok(None),
        Some(p) => {
            let ticked = tick_timer(p.spawn_timer, dt);
            if ticked > 0 {
                w.player = Some(
                    Player {
                        transform: p.transform,
                        movement: p.movement,
                        fire_cooldown: p.fire_cooldown,
                        spawn_timer: ticked,
                    },
                );
                Ok(None)
            } else {
                match spawn_enemy_around(&p.transform) {
                    Err(e) => Err(e),
                    Ok(en) => {
                        w.player = Some(
                            Player {
                                transform: p.transform,
                                movement: p.movement,
                                fire_cooldown: p.fire_cooldown,
                                spawn_timer: SPAWN_PERIOD_MS,
                            },
                        );
                        Ok(Some(en))
                    },
                }
            }
        },
    }
}

/// The cheap centre-distance pre-filter of the bullet/enemy check.
pub open spec fn bullet_enemy_prefilter(b: Bullet, e: Enemy) -> bool {
    let dx = e.transform.x - b.transform.x;
    let dy = e.transform.y - b.transform.y;
    dx * dx + dy * dy < 33_500 * 33_500
}

/// One confirmed bullet/enemy overlap.
pub open spec fn bullet_hits_enemy(b: Bullet, e: Enemy) -> bool {
    &&& bullet_enemy_prefilter(b, e)
    &&& collides_spec(
        b.transform,
        5_000,
        17_000,
        b.movement.look_direction as int,
        e.transform,
        35_000,
        50_000,
        e.movement.look_direction as int,
    )
}

/// A bullet is spent when it overlaps any enemy of the frame's snapshot.
pub open spec fn bullet_spent(b: Bullet, es: Seq<Enemy>) -> bool {
    exists|j: int| 0 <= j < es.len() && bullet_hits_enemy(b, #[trigger] es[j])
}

/// An enemy is killed when any bullet of the frame's snapshot overlaps it.
pub open spec fn enemy_killed(bs: Seq<Bullet>, e: Enemy) -> bool {
    exists|i: int| 0 <= i < bs.len() && bullet_hits_enemy(#[trigger] bs[i], e)
}

/// The bullets that leave the collision pass, in their original order.
pub open spec fn surviving_bullets_spec(bs: Seq<Bullet>, es: Seq<Enemy>) -> Seq<Bullet>
    decreases bs.len(),
{
    if bs.len() == 0 {
        Seq::empty()
    } else {
        surviving_bullets_spec(bs.drop_last(), es) + (if bullet_spent(bs.last(), es) {
            Seq::empty()
        } else {
            seq![bs.last()]
        })
    }
}

/// The enemies that leave the collision pass, in their original order.
pub open spec fn surviving_enemies_spec(bs: Seq<Bullet>, es: Seq<Enemy>) -> Seq<Enemy>
    decreases es.len(),
{
    if es.len() == 0 {
        Seq::empty()
    } else {
        surviving_enemies_spec(bs, es.drop_last()) + (if enemy_killed(bs, es.last()) {
            Seq::empty()
        } else {
            seq![es.last()]
        })
    }
}

/// What one confirmed kill is worth: tougher enemies are worth less at
/// once, since their splits pay out later.
pub open spec fn kill_points(health: u32) -> int {
    (4 - health) * 50
}

/// What one enemy and its whole line of descendants are worth: its own
/// kill points, plus two full sub-trees one health step lower. Tougher
/// enemies pay less at once but spawn more kills through splitting, so the
/// worth of a line stays bounded.
pub open spec fn split_tree_points(health: u32) -> int
    decreases health,
{
    kill_points(health) + if health > 0 {
        2 * split_tree_points((health - 1) as u32)
    } else {
        0
    }
}

/// Fully resolving one full-health enemy is worth 1200: one kill at 100,
/// two children at 150 each, four grandchildren at 200 each.
pub proof fn lemma_split_tree_worth()
    ensures
        split_tree_points(0) == 200,
        split_tree_points(1) == 550,
        split_tree_points(2) == 1200,
{
    assert(split_tree_points(0) == 200);
    assert(split_tree_points(1) == 550);
}

/// The points one bullet earns over the enemy snapshot, in scan order.
pub open spec fn bullet_points(b: Bullet, es: Seq<Enemy>) -> int
    decreases es.len(),
{
    if es.len() == 0 {
        0
    } else {
        bullet_points(b, es.drop_last()) + if bullet_hits_enemy(b, es.last()) {
            kill_points(es.last().health)
        } else {
            0
        }
    }
}

/// The points the whole collision pass earns.
pub open spec fn total_points(bs: Seq<Bullet>, es: Seq<Enemy>) -> int
    decreases bs.len(),
{
    if bs.len() == 0 {
        0
    } else {
        total_points(bs.drop_last(), es) + bullet_points(bs.last(), es)
    }
}

/// The parents of the split children, one entry per child, in scan order:
/// each confirmed kill of an enemy with positive health contributes its
/// parent twice.
pub open spec fn split_parents_for_bullet(b: Bullet, es: Seq<Enemy>) -> Seq<Enemy>
    decreases es.len(),
{
    if es.len() == 0 {
        Seq::empty()
    } else {
        split_parents_for_bullet(b, es.drop_last()) + (if bullet_hits_enemy(b, es.last())
            && es.last().health > 0 {
            seq![es.last(), es.last()]
        } else {
            Seq::empty()
        })
    }
}

pub open spec fn split_parents(bs: Seq<Bullet>, es: Seq<Enemy>) -> Seq<Enemy>
    decreases bs.len(),
{
    if bs.len() == 0 {
        Seq::empty()
    } else {
        split_parents(bs.drop_last(), es) + split_parents_for_bullet(bs.last(), es)
    }
}

/// Addition on the score counter, saturating at the top of the range.
pub open spec fn sat_add_spec(a: int, b: int) -> int {
    if a + b > u64::MAX {
        u64::MAX as int
    } else {
        a + b
    }
}

/// The split children stand where their parents stood, one health step
/// lower, one child per parent entry.
pub open spec fn children_match(children: Seq<Enemy>, parents: Seq<Enemy>) -> bool {
    &&& children.len() == parents.len()
    &&& forall|k: int|
        0 <= k < children.len() ==> (#[trigger] children[k]).transform == parents[k].transform
            && children[k].health == parents[k].health - 1 && enemy_inv(children[k])
}

fn sat_add_u64(a: u64, b: u64) -> (r: u64)
    ensures
        r == sat_add_spec(a as int, b as int),
{
    if a > u64::MAX - b {
        u64::MAX
    } else {
        a + b
    }
}

proof fn lemma_bullet_points_nonneg(b: Bullet, es: Seq<Enemy>)
    requires
        forall|j: int| 0 <= j < es.len() ==> (#[trigger] es[j]).health <= 2,
    ensures
        0 <= bullet_points(b, es),
    decreases es.len(),
{
    if es.len() > 0 {
        lemma_bullet_points_nonneg(b, es.drop_last());
    }
}

proof fn lemma_total_points_nonneg(bs: Seq<Bullet>, es: Seq<Enemy>)
    requires
        forall|j: int| 0 <= j < es.len() ==> (#[trigger] es[j]).health <= 2,
    ensures
        0 <= total_points(bs, es),
    decreases bs.len(),
{
    if bs.len() > 0 {
        lemma_total_points_nonneg(bs.drop_last(), es);
        lemma_bullet_points_nonneg(bs.last(), es);
    }
}

fn bullet_hits_enemy_check(b: &Bullet, e: &Enemy) -> (r: bool)
    requires
        bullet_inv(*b),
        enemy_inv(*e),
    ensures
        r == bullet_hits_enemy(*b, *e),
{
    let dx = e.transform.x - b.transform.x;
    let dy = e.transform.y - b.transform.y;
    proof {
        lemma_mul_abs_bound(dx as int, dx as int, 2_000_000_000, 2_000_000_000);
        lemma_mul_abs_bound(dy as int, dy as int, 2_000_000_000, 2_000_000_000);
    }
    if dx * dx + dy * dy < 33_500 * 33_500 {
        check_collision(
            &b.transform,
            BULLET_WIDTH,
            BULLET_HEIGHT,
            b.movement.look_direction,
            &e.transform,
            ENEMY_WIDTH,
            ENEMY_HEIGHT,
            e.movement.look_direction,
        )
    } else {
        false
    }
}

fn bullet_spent_check(b: &Bullet, es: &Vec<Enemy>) -> (r: bool)
    requires
        bullet_inv(*b),
        forall|j: int| 0 <= j < es@.len() ==> enemy_inv(#[trigger] es@[j]),
    ensures
        r == bullet_spent(*b, es@),
{
    let mut j: usize = 0;
    while j < es.len()
        invariant
            j <= es@.len(),
            bullet_inv(*b),
            forall|k: int| 0 <= k < es@.len() ==> enemy_inv(#[trigger] es@[k]),
            forall|k: int| 0 <= k < j ==> !bullet_hits_enemy(*b, #[trigger] es@[k]),
        decreases es@.len() - j,
    {
        if bullet_hits_enemy_check(b, &es[j]) {
            return true;
        }
        j = j + 1;
    }
    false
}

fn enemy_killed_check(bs: &Vec<Bullet>, e: &Enemy) -> (r: bool)
    requires
        enemy_inv(*e),
        forall|i: int| 0 <= i < bs@.len() ==> bullet_inv(#[trigger] bs@[i]),
    ensures
        r == enemy_killed(bs@, *e),
{
    let mut i: usize = 0;
    while i < bs.len()
        invariant
            i <= bs@.len(),
            enemy_inv(*e),
            forall|k: int| 0 <= k < bs@.len() ==> bullet_inv(#[trigger] bs@[k]),
            forall|k: int| 0 <= k < i ==> !bullet_hits_enemy(#[trigger] bs@[k], *e),
        decreases bs@.len() - i,
    {
        if bullet_hits_enemy_check(&bs[i], e) {
            return true;
        }
        i = i + 1;
    }
    false
}

/// The bullet/enemy collision pass over this frame's snapshot: every
/// overlapping pair despawns its bullet and its enemy and is scored; each
/// killed enemy with positive health leaves two split children, which are
/// handed back to join the world at end of frame.
pub fn bullet_hits(w: &mut World) -> (r: Result<Vec<Enemy>, EntropyError>)
    requires
        world_inv(*old(w)),
    ensures
        world_inv(*final(w)),
        r is Err ==> *final(w) == *old(w),
        split_parents(old(w).bullets@, old(w).enemies@).len() == 0 ==> r is Ok,
        final(w).state == old(w).state,
        final(w).name@ == old(w).name@,
        final(w).background == old(w).background,
        final(w).player == old(w).player,
        r matches Ok(children) ==> {
            &&& final(w).bullets@ == surviving_bullets_spec(old(w).bullets@, old(w).enemies@)
            &&& final(w).enemies@ == surviving_enemies_spec(old(w).bullets@, old(w).enemies@)
            &&& final(w).score == sat_add_spec(
                old(w).score as int,
                total_points(old(w).bullets@, old(w).enemies@),
            )
            &&& children_match(children@, split_parents(old(w).bullets@, old(w).enemies@))
        },
{
    let ghost bs0 = w.bullets@;
    let ghost es0 = w.enemies@;
    // Scan every pair of the snapshot: accumulate the score and collect the
    // parents of the split children, twice per confirmed splitting kill.
    let mut score_acc: u64 = w.score;
    let mut parents: Vec<Enemy> = Vec::new();
    let mut i: usize = 0;
    proof {
        lemma_total_points_nonneg(bs0, es0);
    }
    while i < w.bullets.len()
        invariant
            i <= bs0.len(),
            *w == *old(w),
            w.bullets@ == bs0,
            w.enemies@ == es0,
            world_inv(*w),
            score_acc == sat_add_spec(
                old(w).score as int,
                total_points(bs0.subrange(0, i as int), es0),
            ),
            parents@ == split_parents(bs0.subrange(0, i as int), es0),
            forall|k: int|
                0 <= k < parents@.len() ==> enemy_inv(#[trigger] parents@[k])
                    && parents@[k].health > 0,
            old(w).score == w.score,
        decreases bs0.len() - i,
    {
        let b = w.bullets[i];
        let mut j: usize = 0;
        let ghost par_pre = parents@;
        while j < w.enemies.len()
            invariant
                j <= es0.len(),
                i < bs0.len(),
                *w == *old(w),
                w.bullets@ == bs0,
                w.enemies@ == es0,
                world_inv(*w),
                b == bs0[i as int],
                score_acc == sat_add_spec(
                    old(w).score as int,
                    total_points(bs0.subrange(0, i as int), es0) + bullet_points(
                        bs0[i as int],
                        es0.subrange(0, j as int),
                    ),
                ),
                parents@ == par_pre + split_parents_for_bullet(
                    bs0[i as int],
                    es0.subrange(0, j as int),
                ),
                par_pre == split_parents(bs0.subrange(0, i as int), es0),
                forall|k: int|
                    0 <= k < parents@.len() ==> enemy_inv(#[trigger] parents@[k])
                        && parents@[k].health > 0,
                old(w).score == w.score,
            decreases es0.len() - j,
        {
            let e = w.enemies[j];
            proof {
                let pre = es0.subrange(0, j as int);
                let cur = es0.subrange(0, j + 1 as int);
                assert(cur.drop_last() =~= pre);
                assert(cur.last() == es0[j as int]);
                lemma_bullet_points_nonneg(bs0[i as int], pre);
                lemma_total_points_nonneg(bs0.subrange(0, i as int), es0);
            }
            if bullet_hits_enemy_check(&b, &e) {
                let pts: u64 = ((4 - e.health) * 50) as u64;
                score_acc = sat_add_u64(score_acc, pts);
                if e.health > 0 {
                    parents.push(e);
                    parents.push(e);
                    proof {
                        assert(parents@ =~= par_pre + split_parents_for_bullet(
                            bs0[i as int],
                            es0.subrange(0, j + 1 as int),
                        ));
                    }
                }
            }
            j = j + 1;
        }
        proof {
            let pre = bs0.subrange(0, i as int);
            let cur = bs0.subrange(0, i + 1 as int);
            assert(cur.drop_last() =~= pre);
            assert(cur.last() == bs0[i as int]);
            assert(es0.subrange(0, es0.len() as int) =~= es0);
        }
        i = i + 1;
    }
    proof {
        assert(bs0.subrange(0, bs0.len() as int) =~= bs0);
    }
    // Draw the children's movements; the world is untouched until every
    // draw has come back.
    let mut children: Vec<Enemy> = Vec::new();
    let mut k: usize = 0;
    while k < parents.len()
        invariant
            k <= parents@.len(),
            *w == *old(w),
            w.bullets@ == bs0,
            w.enemies@ == es0,
            world_inv(*w),
            parents@ == split_parents(bs0, es0),
            forall|t: int|
                0 <= t < parents@.len() ==> enemy_inv(#[trigger] parents@[t])
                    && parents@[t].health > 0,
            children@.len() == k,
            forall|t: int|
                0 <= t < k ==> {
                    &&& (#[trigger] children@[t]).transform == parents@[t].transform
                    &&& children@[t].health == parents@[t].health - 1
                    &&& enemy_inv(children@[t])
                },
        decreases parents@.len() - k,
    {
        let m = match random_movement() {
            Ok(m) => m,
            Err(e) => {
                return Err(e);
            },
        };
        let p = parents[k];
        children.push(Enemy { transform: p.transform, movement: m, health: p.health - 1 });
        k = k + 1;
    }
    // Apply the despawns: every spent bullet and killed enemy leaves.
    let mut kept_bullets: Vec<Bullet> = Vec::new();
    let mut bi: usize = 0;
    while bi < w.bullets.len()
        invariant
            bi <= bs0.len(),
            *w == *old(w),
            w.bullets@ == bs0,
            w.enemies@ == es0,
            world_inv(*w),
            kept_bullets@ == surviving_bullets_spec(bs0.subrange(0, bi as int), es0),
            forall|t: int| 0 <= t < kept_bullets@.len() ==> bullet_inv(#[trigger] kept_bullets@[t]),
        decreases bs0.len() - bi,
    {
        let b = w.bullets[bi];
        proof {
            let pre = bs0.subrange(0, bi as int);
            let cur = bs0.subrange(0, bi + 1 as int);
            assert(cur.drop_last() =~= pre);
            assert(cur.last() == bs0[bi as int]);
        }
        if !bullet_spent_check(&b, &w.enemies) {
            kept_bullets.push(b);
        }
        bi = bi + 1;
    }
    let mut kept_enemies: Vec<Enemy> = Vec::new();
    let mut ei: usize = 0;
    while ei < w.enemies.len()
        invariant
            ei <= es0.len(),
            *w == *old(w),
            w.bullets@ == bs0,
            w.enemies@ == es0,
            world_inv(*w),
            kept_enemies@ == surviving_enemies_spec(bs0, es0.subrange(0, ei as int)),
            forall|t: int| 0 <= t < kept_enemies@.len() ==> enemy_inv(#[trigger] kept_enemies@[t]),
        decreases es0.len() - ei,
    {
        let e = w.enemies[ei];
        proof {
            let pre = es0.subrange(0, ei as int);
            let cur = es0.subrange(0, ei + 1 as int);
            assert(cur.drop_last() =~= pre);
            assert(cur.last() == es0[ei as int]);
        }
        if !enemy_killed_check(&w.bullets, &e) {
            kept_enemies.push(e);
        }
        ei = ei + 1;
    }
    proof {
        assert(bs0.subrange(0, bs0.len() as int) =~= bs0);
        assert(es0.subrange(0, es0.len() as int) =~= es0);
    }
    w.bullets = kept_bullets;
    w.enemies = kept_enemies;
    w.score = score_acc;
    Ok(children)
}

/// What one in-game frame reports back: whether the game ended, and the
/// leaderboard submission the transition asks for.
pub struct FrameOutcome {
    pub entered_game_over: bool,
    pub submit: Option<(Vec<char>, u64)>,
}

/// An optional value as a sequence of zero or one elements.
pub open spec fn opt_seq<T>(o: Option<T>) -> Seq<T> {
    match o {
        Some(x) => seq![x],
        None => Seq::empty(),
    }
}

/// Every bullet of the snapshot after one motion step; bullets are exempt
/// from the wrap.
pub open spec fn moved_bullets_view(bs: Seq<Bullet>, dt: int) -> Seq<Bullet> {
    bs.map_values(|b: Bullet| moved_bullet_spec(b, dt))
}

/// Every enemy of the snapshot after one motion step and the boundary
/// wrap.
pub open spec fn moved_warped_enemies_view(es: Seq<Enemy>, dt: int) -> Seq<Enemy> {
    es.map_values(|e: Enemy| warped_enemy_spec(moved_enemy_spec(e, dt)))
}

/// The player after one motion step and the boundary wrap.
pub open spec fn frame_moved_player(p: Option<Player>, dt: int) -> Option<Player> {
    match p {
        Some(p2) => Some(
            Player {
                transform: warp_transform_spec(integrate_spec(p2.transform, p2.movement, dt)),
                movement: p2.movement,
                fire_cooldown: p2.fire_cooldown,
                spawn_timer: p2.spawn_timer,
            },
        ),
        None => None,
    }
}

/// How the wave-spawner tick relates the player before and after: a
/// running timer just loses the frame time; an elapsed one refills and
/// leaves one full-health wave enemy with a freshly randomized movement.
pub open spec fn spawner_rel(p1: Player, dt: int, p2: Player, wave: Option<Enemy>) -> bool {
    let ticked = tick_spec(p1.spawn_timer as int, dt);
    if ticked > 0 {
        &&& wave is None
        &&& p2 == (Player {
            transform: p1.transform,
            movement: p1.movement,
            fire_cooldown: p1.fire_cooldown,
            spawn_timer: ticked as u64,
        })
    } else {
        &&& (wave matches Some(e) && enemy_inv(e) && e.health == 2 && 200_000 <= e.movement.speed
            <= 500_000 && e.movement.look_direction == e.movement.heading)
        &&& p2 == (Player {
            transform: p1.transform,
            movement: p1.movement,
            fire_cooldown: p1.fire_cooldown,
            spawn_timer: 10_000,
        })
    }
}

/// Whether one frame on this world consumes entropy: the wave timer runs
/// out, or some post-wrap bullet/enemy overlap splits an enemy with
/// positive health. On every other input the frame owes success.
pub open spec fn frame_draws(w0: World, dt: int) -> bool {
    ||| (w0.player matches Some(p) && tick_spec(p.spawn_timer as int, dt) == 0)
    ||| split_parents(
        moved_bullets_view(w0.bullets@, dt),
        moved_warped_enemies_view(w0.enemies@, dt),
    ).len() > 0
}

/// One whole frame, spelled out against the witnesses the frame produced:
/// `p2opt` is the player after the controller and the wave tick, `shot`
/// the fired bullet, `wave` the spawned wave enemy and `children` the
/// split children. Every other stage is a deterministic function of the
/// starting world: motion and wrap move the snapshot, the collision pass
/// despawns the overlapping pairs and scores them, the player check
/// decides the transition, the cleanup drops spent bullets, and the
/// frame's new entities join only at its end.
pub open spec fn step_frame_witness(
    w0: World,
    input: InputState,
    dt: int,
    w1: World,
    out: FrameOutcome,
    p2opt: Option<Player>,
    shot: Option<Bullet>,
    wave: Option<Enemy>,
    children: Seq<Enemy>,
) -> bool {
    let bullets3 = moved_bullets_view(w0.bullets@, dt);
    let enemies4 = moved_warped_enemies_view(w0.enemies@, dt);
    let bullets5 = surviving_bullets_spec(bullets3, enemies4);
    let enemies5 = surviving_enemies_spec(bullets3, enemies4);
    let score5 = sat_add_spec(w0.score as int, total_points(bullets3, enemies4));
    let moved_player = frame_moved_player(p2opt, dt);
    let hit = (match moved_player {
        Some(p4) => any_player_hit(p4, enemies5),
        None => false,
    });
    &&& (match w0.player {
        None => p2opt is None && shot is None && wave is None,
        Some(p0) => (match p2opt {
            Some(p2) => exists|p1: Player|
                #[trigger] control_rel(p0, input, dt, p1, shot) && spawner_rel(
                    p1,
                    dt,
                    p2,
                    wave,
                ),
            None => false,
        }),
    })
    &&& children_match(children, split_parents(bullets3, enemies4))
    &&& out.entered_game_over == hit
    &&& w1.name@ == w0.name@
    &&& w1.score == score5
    &&& (if hit {
        &&& w1.state == GameState::GameOver
        &&& w1.player is None
        &&& w1.enemies@.len() == 0
        &&& w1.bullets@.len() == 0
        &&& !w1.background
        &&& (w0.name@.len() > 0 ==> (out.submit matches Some(s) && s.0@ == w0.name@ && s.1
            == score5))
        &&& (w0.name@.len() == 0 ==> out.submit is None)
    } else {
        &&& w1.state == GameState::InGame
        &&& w1.background == w0.background
        &&& w1.player == moved_player
        &&& w1.bullets@ == retained_bullets_spec(bullets5) + opt_seq(shot)
        &&& w1.enemies@ == enemies5 + opt_seq(wave) + children
        &&& out.submit is None
    })
}

/// The whole-frame relation: some choice of controller result, shot, wave
/// enemy and split children ties the two worlds together as one frame.
pub open spec fn step_frame_rel(
    w0: World,
    input: InputState,
    dt: int,
    w1: World,
    out: FrameOutcome,
) -> bool {
    exists|p2: Option<Player>, shot: Option<Bullet>, wave: Option<Enemy>, children: Seq<Enemy>|
        #[trigger] step_frame_witness(w0, input, dt, w1, out, p2, shot, wave, children)
}

/// One full in-game frame, in the fixed system order: player control, the
/// wave-spawner tick, motion integration, the boundary wrap, bullet/enemy
/// collisions, the player/enemy check and the out-of-bounds cleanup.
/// Entities requested during the frame (the fired bullet, the wave enemy,
/// the split children) join the world only at end of frame, so no system
/// of the same frame sees them. Without a live player the controller and
/// the spawner quietly skip: nothing fires, spawns or ticks. A confirmed
/// player/enemy overlap ends the game: every entity is torn down, and a
/// non-empty name asks for exactly one submission of the final score.
/// When the entropy source fails the frame stops where it stood; the
/// state machine does not move, and success is owed whenever the frame
/// makes no draw.
pub fn step_frame(w: &mut World, input: InputState, dt: u64) -> (r: Result<
    FrameOutcome,
    EntropyError,
>)
    requires
        world_inv(*old(w)),
        old(w).state == GameState::InGame,
        dt <= 1000,
    ensures
        world_inv(*final(w)),
        final(w).name@ == old(w).name@,
        final(w).score >= old(w).score,
        r is Err ==> final(w).state == GameState::InGame,
        !frame_draws(*old(w), dt as int) ==> r is Ok,
        old(w).player is None ==> final(w).player is None,
        r matches Ok(out) ==> step_frame_rel(*old(w), input, dt as int, *final(w), out),
{
    let ghost w0 = *w;
    let mut pending_bullet: Option<Bullet> = None;
    let ghost mut p1v: Player = Player::new_spec();
    match w.player {
        Some(p) => {
            let mut pl = p;
            let shot = player_control(&mut pl, input, dt);
            proof {
                p1v = pl;
            }
            w.player = Some(pl);
            pending_bullet = shot;
        },
        None => {},
    }
    let wave = match enemy_spawner(w, dt) {
        Ok(o) => o,
        Err(e) => {
            proof {
                // The spawner draws only once the wave timer has run out.
                match w0.player {
                    Some(p0) => {
                        assert(tick_spec(p0.spawn_timer as int, dt as int) == 0);
                        assert(frame_draws(w0, dt as int));
                    },
                    None => {
                        assert(false);
                    },
                }
            }
            return Err(e);
        },
    };
    let ghost p2opt = w.player;
    sprite_movement(w, dt);
    warp_system(w);
    proof {
        assert(w.bullets@ =~= moved_bullets_view(w0.bullets@, dt as int));
        assert(w.enemies@ =~= moved_warped_enemies_view(w0.enemies@, dt as int));
        assert(w.player == frame_moved_player(p2opt, dt as int));
    }
    let ghost bullets3 = w.bullets@;
    let ghost enemies4 = w.enemies@;
    proof {
        assert forall|j: int| 0 <= j < enemies4.len() implies (#[trigger] enemies4[j]).health
            <= 2 by {
            assert(enemy_inv(enemies4[j]));
        }
        lemma_total_points_nonneg(bullets3, enemies4);
    }
    let children = match bullet_hits(w) {
        Ok(c) => c,
        Err(e) => {
            proof {
                // Only a splitting kill draws.
                assert(split_parents(bullets3, enemies4).len() > 0);
                assert(frame_draws(w0, dt as int));
            }
            return Err(e);
        },
    };
    let hit = player_hits(w);
    cleanup(w);
    if hit {
        let submit = w.enter_game_over();
        let out = FrameOutcome { entered_game_over: true, submit };
        proof {
            match w0.player {
                Some(p0) => {
                    match p2opt {
                        Some(p2) => {
                            assert(control_rel(p0, input, dt as int, p1v, pending_bullet));
                            assert(spawner_rel(p1v, dt as int, p2, wave));
                        },
                        None => {},
                    }
                },
                None => {},
            }
            assert(step_frame_witness(
                w0,
                input,
                dt as int,
                *w,
                out,
                p2opt,
                pending_bullet,
                wave,
                children@,
            ));
        }
        Ok(out)
    } else {
        let ghost en5 = w.enemies@;
        let ghost bu7 = w.bullets@;
        match pending_bullet {
            Some(b) => {
                w.bullets.push(b);
                proof {
                    assert(w.bullets@ =~= bu7 + opt_seq(pending_bullet));
                }
            },
            None => {
                proof {
                    assert(w.bullets@ =~= bu7 + opt_seq(pending_bullet));
                }
            },
        }
        match wave {
            Some(e) => {
                w.enemies.push(e);
                proof {
                    assert(w.enemies@ =~= en5 + opt_seq(wave));
                }
            },
            None => {
                proof {
                    assert(w.enemies@ =~= en5 + opt_seq(wave));
                }
            },
        }
        let ghost base_en = w.enemies@;
        let ghost base_world = *w;
        let mut k: usize = 0;
        while k < children.len()
            invariant
                k <= children@.len(),
                forall|t: int| 0 <= t < children@.len() ==> enemy_inv(#[trigger] children@[t]),
                w.enemies@ == base_en + children@.subrange(0, k as int),
                w.state == base_world.state,
                w.score == base_world.score,
                w.name@ == base_world.name@,
                w.background == base_world.background,
                w.player == base_world.player,
                w.bullets@ == base_world.bullets@,
                world_inv(*w),
                base_world.state == GameState::InGame,
            decreases children@.len() - k,
        {
            w.enemies.push(children[k]);
            proof {
                assert(w.enemies@ =~= base_en + children@.subrange(0, k + 1 as int));
            }
            k = k + 1;
        }
        proof {
            assert(children@.subrange(0, children@.len() as int) =~= children@);
            assert(w.enemies@ =~= en5 + opt_seq(wave) + children@);
        }
        let out = FrameOutcome { entered_game_over: false, submit: None };
        proof {
            match w0.player {
                Some(p0) => {
                    match p2opt {
                        Some(p2) => {
                            assert(control_rel(p0, input, dt as int, p1v, pending_bullet));
                            assert(spawner_rel(p1v, dt as int, p2, wave));
                        },
                        None => {},
                    }
                },
                None => {},
            }
            assert(step_frame_witness(
                w0,
                input,
                dt as int,
                *w,
                out,
                p2opt,
                pending_bullet,
                wave,
                children@,
            ));
        }
        Ok(out)
    }
}

} // verus!
