use ppoid::entity::{Enemy, Player};
use ppoid::entity::Bullet;
use ppoid::frame::{bullet_hits, cleanup, enemy_spawner, player_hits, sprite_movement, step_frame};
use ppoid::geom::Transform;
use ppoid::motion::Movement;
use ppoid::player::{decel_movement, player_control, thrust_movement, InputState};
use ppoid::world::{GameState, World};

fn in_game_world() -> World {
    let mut w = World::new();
    w.state = GameState::InGame;
    w
}

fn still_movement() -> Movement {
    Movement { speed: 0, heading: 0, look_direction: 0 }
}

fn enemy_at(x: i64, y: i64, health: u32) -> Enemy {
    Enemy { transform: Transform { x, y, rot: 0 }, movement: still_movement(), health }
}

fn bullet_at(x: i64, y: i64) -> Bullet {
    Bullet {
        transform: Transform { x, y, rot: 0 },
        movement: Movement { speed: 700_000, heading: 0, look_direction: 0 },
    }
}

const THRUST: InputState =
    InputState { thrust: true, turn_left: false, turn_right: false, fire: false };

const COAST: InputState =
    InputState { thrust: false, turn_left: false, turn_right: false, fire: false };

const FIRE: InputState =
    InputState { thrust: false, turn_left: false, turn_right: false, fire: true };

#[test]
fn asset_paths_follow_health() {
    assert_eq!(Enemy::get_asset_path(2), "enemy-big.png");
    assert_eq!(Enemy::get_asset_path(1), "enemy-medium.png");
    assert_eq!(Enemy::get_asset_path(0), "enemy-small.png");
    assert_eq!(Enemy::get_asset_path(9), "");
}

#[test]
fn default_movement_is_at_rest() {
    let m = Movement::default();
    assert_eq!(m, Movement { speed: 0, heading: 0, look_direction: 0 });
}

#[test]
fn split_yields_two_weaker_children() {
    let mut w = in_game_world();
    w.enemies.push(enemy_at(300_000, 0, 2));
    w.bullets.push(bullet_at(300_000, 0));
    let children = bullet_hits(&mut w).expect("entropy source");
    assert_eq!(children.len(), 2);
    for c in &children {
        assert_eq!(c.health, 1);
        assert_eq!(c.transform, Transform { x: 300_000, y: 0, rot: 0 });
    }
    assert!(w.enemies.is_empty());
    assert!(w.bullets.is_empty());
    assert_eq!(w.score, 100);
}

#[test]
fn killing_spent_enemy_yields_no_children() {
    let mut w = in_game_world();
    w.enemies.push(enemy_at(0, 0, 0));
    w.bullets.push(bullet_at(0, 0));
    let children = bullet_hits(&mut w).expect("entropy source");
    assert!(children.is_empty());
    assert!(w.enemies.is_empty());
    assert_eq!(w.score, 200);
}

#[test]
fn score_over_a_full_split_tree() {
    // One full-health enemy: 100 at once, 150 for each child, 200 for each
    // grandchild - 1200 over the whole line.
    let mut w = in_game_world();
    w.enemies.push(enemy_at(100_000, 50_000, 2));
    w.bullets.push(bullet_at(100_000, 50_000));
    let children = bullet_hits(&mut w).expect("entropy source");
    assert_eq!(w.score, 100);
    assert_eq!(children.len(), 2);

    w.enemies = children;
    w.bullets = vec![bullet_at(100_000, 50_000)];
    let grandchildren = bullet_hits(&mut w).expect("entropy source");
    assert_eq!(w.score, 400);
    assert_eq!(grandchildren.len(), 4);
    for g in &grandchildren {
        assert_eq!(g.health, 0);
    }

    w.enemies = grandchildren;
    w.bullets = vec![bullet_at(100_000, 50_000)];
    let rest = bullet_hits(&mut w).expect("entropy source");
    assert!(rest.is_empty());
    assert_eq!(w.score, 1200);
}

#[test]
fn distant_bullet_hits_nothing() {
    let mut w = in_game_world();
    w.enemies.push(enemy_at(300_000, 0, 2));
    w.bullets.push(bullet_at(-300_000, 0));
    let children = bullet_hits(&mut w).expect("entropy source");
    assert!(children.is_empty());
    assert_eq!(w.enemies.len(), 1);
    assert_eq!(w.bullets.len(), 1);
    assert_eq!(w.score, 0);
}

#[test]
fn thrust_never_exceeds_speed_cap() {
    let mut m = still_movement();
    for _ in 0..50 {
        m = thrust_movement(&m, 1000);
        assert!(m.speed >= 0);
        assert!(m.speed <= 500_000);
    }
    assert_eq!(m.speed, 500_000);
}

#[test]
fn coasting_never_goes_negative() {
    let mut m = Movement { speed: 500_000, heading: 40_000, look_direction: 40_000 };
    for _ in 0..10 {
        m = decel_movement(&m, 1000);
        assert!(m.speed >= 0);
    }
    assert_eq!(m.speed, 0);
}

#[test]
fn fire_respects_cooldown() {
    let mut p = Player::new();
    let shot = player_control(&mut p, FIRE, 16);
    let b = shot.expect("the fresh player fires at once");
    assert_eq!(b.movement.speed, 700_000);
    assert_eq!(b.movement.heading, p.movement.look_direction);
    assert_eq!(p.fire_cooldown, 200);
    // The next frame is still cooling down.
    let shot = player_control(&mut p, FIRE, 16);
    assert!(shot.is_none());
    assert_eq!(p.fire_cooldown, 200 - 16);
}

#[test]
fn thrust_frame_builds_speed() {
    let mut p = Player::new();
    let shot = player_control(&mut p, THRUST, 16);
    assert!(shot.is_none());
    assert_eq!(p.movement.speed, 4_000);
    assert_eq!(p.movement.heading, 0);
}

#[test]
fn wave_timer_spawns_and_refills() {
    let mut w = in_game_world();
    let mut p = Player::new();
    p.spawn_timer = 10;
    w.player = Some(p);
    let wave = enemy_spawner(&mut w, 16).expect("entropy source");
    let e = wave.expect("the elapsed timer spawns one wave enemy");
    assert_eq!(e.health, 2);
    // Spawned around the centre, the corrected position lies in the arena.
    assert!(e.transform.x.abs() <= 540_000);
    assert!(e.transform.y.abs() <= 360_000);
    assert!((200_000..=500_000).contains(&e.movement.speed));
    assert_eq!(e.movement.look_direction, e.movement.heading);
    assert_eq!(w.player.unwrap().spawn_timer, 10_000);
    // A ticking timer spawns nothing.
    let wave = enemy_spawner(&mut w, 16).expect("entropy source");
    assert!(wave.is_none());
    assert_eq!(w.player.unwrap().spawn_timer, 10_000 - 16);
}

#[test]
fn cleanup_discards_bullets_fully_outside() {
    let mut w = in_game_world();
    w.bullets.push(bullet_at(0, 0));
    w.bullets.push(bullet_at(540_001, 0));
    w.bullets.push(bullet_at(0, -360_001));
    cleanup(&mut w);
    assert_eq!(w.bullets.len(), 1);
    assert_eq!(w.bullets[0].transform.x, 0);
}

#[test]
fn motion_system_moves_every_entity() {
    let mut w = in_game_world();
    w.player = Some(Player::new());
    w.enemies.push(Enemy {
        transform: Transform { x: 0, y: 0, rot: 0 },
        movement: Movement { speed: 300_000, heading: 0, look_direction: 70_000 },
        health: 2,
    });
    sprite_movement(&mut w, 1000);
    assert_eq!(w.enemies[0].transform.y, 300_000);
    assert_eq!(w.enemies[0].transform.rot, 70_000);
    assert_eq!(w.player.unwrap().transform, Transform { x: 0, y: 0, rot: 0 });
}

#[test]
fn player_overlap_is_detected() {
    let mut w = in_game_world();
    w.player = Some(Player::new());
    // The player's hit box hangs below its anchor.
    w.enemies.push(enemy_at(0, -37_500, 2));
    assert!(player_hits(&w));
    let mut far = in_game_world();
    far.player = Some(Player::new());
    far.enemies.push(enemy_at(300_000, 0, 2));
    assert!(!player_hits(&far));
}

#[test]
fn name_entry_filters_characters() {
    let mut w = World::new();
    w.update_player_name('A');
    w.update_player_name('d');
    w.update_player_name('a');
    assert_eq!(w.name, vec!['A', 'd', 'a']);
    w.update_player_name(' ');
    w.update_player_name('\n');
    w.update_player_name('\r');
    w.update_player_name('!');
    assert_eq!(w.name, vec!['A', 'd', 'a']);
    w.name_backspace();
    assert_eq!(w.name, vec!['A', 'd']);
    for _ in 0..20 {
        w.update_player_name('x');
    }
    assert_eq!(w.name.len(), 16);
}

#[test]
fn state_machine_full_round() {
    let mut w = World::new();
    assert_eq!(w.state, GameState::Start);
    for c in ['B', 'o', 'b'] {
        w.update_player_name(c);
    }
    // Clicking start begins the game with a fresh arena.
    w.click_button().expect("entropy source");
    assert_eq!(w.state, GameState::InGame);
    assert_eq!(w.score, 0);
    assert_eq!(w.name, vec!['B', 'o', 'b']);
    assert!(w.player.is_some());
    assert_eq!(w.enemies.len(), 2);
    assert!(w.enemies.iter().all(|e| e.health == 2));
    assert!(w.background);
    // A confirmed overlap ends the game and clears the arena.
    let submit = w.enter_game_over();
    assert_eq!(w.state, GameState::GameOver);
    assert!(w.player.is_none());
    assert!(w.enemies.is_empty());
    assert!(w.bullets.is_empty());
    let (name, score) = submit.expect("a named player submits");
    assert_eq!(name, vec!['B', 'o', 'b']);
    assert_eq!(score, 0);
    // Clicking restart goes back to name entry, empty again.
    w.click_button().expect("no draws on this path");
    assert_eq!(w.state, GameState::Start);
    assert!(w.name.is_empty());
    assert!(w.player.is_none());
    assert!(w.enemies.is_empty());
}

#[test]
fn named_player_submits_exactly_once() {
    let mut w = in_game_world();
    w.name = vec!['A', 'd', 'a'];
    w.score = 1400;
    let submit = w.enter_game_over();
    let (name, score) = submit.expect("a named player submits");
    assert_eq!(name, vec!['A', 'd', 'a']);
    assert_eq!(score, 1400);
}

#[test]
fn unnamed_player_never_submits() {
    let mut w = in_game_world();
    w.score = 900;
    let submit = w.enter_game_over();
    assert!(submit.is_none());
}

#[test]
fn frame_without_contact_stays_in_game() {
    let mut w = World::new();
    w.click_button().expect("entropy source");
    let out = step_frame(&mut w, THRUST, 16).expect("entropy source");
    assert!(!out.entered_game_over);
    assert!(out.submit.is_none());
    assert_eq!(w.state, GameState::InGame);
    assert_eq!(w.player.unwrap().movement.speed, 4_000);
}

#[test]
fn frame_with_contact_ends_the_game() {
    let mut w = in_game_world();
    w.name = vec!['A', 'd', 'a'];
    w.score = 250;
    w.player = Some(Player::new());
    w.enemies.push(enemy_at(0, -37_500, 2));
    let out = step_frame(&mut w, COAST, 0).expect("entropy source");
    assert!(out.entered_game_over);
    assert_eq!(w.state, GameState::GameOver);
    assert!(w.enemies.is_empty());
    let (name, score) = out.submit.expect("a named player submits");
    assert_eq!(name, vec!['A', 'd', 'a']);
    assert_eq!(score, 250);
}

#[test]
fn frame_without_player_skips_quietly() {
    // No live player: nothing fires, spawns or ticks, yet bullets in
    // flight still move; a frame that makes no entropy draw cannot fail.
    let mut w = in_game_world();
    w.bullets.push(bullet_at(0, 0));
    let out = step_frame(&mut w, FIRE, 16).expect("no draws on this path");
    assert!(!out.entered_game_over);
    assert!(out.submit.is_none());
    assert!(w.player.is_none());
    assert_eq!(w.enemies.len(), 0);
    assert_eq!(w.bullets.len(), 1);
    // 700 units per second for 16 milliseconds, straight up.
    assert_eq!(w.bullets[0].transform.y, 11_200);
}

#[test]
fn fired_bullet_joins_at_end_of_frame() {
    let mut w = in_game_world();
    w.player = Some(Player::new());
    let out = step_frame(&mut w, FIRE, 16).expect("entropy source");
    assert!(!out.entered_game_over);
    assert_eq!(w.bullets.len(), 1);
    assert_eq!(w.bullets[0].movement.speed, 700_000);
}
