use vstd::prelude::*;
use crate::entity::{bullet_inv, enemy_inv, player_inv, spawn_enemy_around, Bullet, Enemy, Player};
use crate::geom::Transform;
use crate::rng::EntropyError;

verus! {

/// The three screens of the game. Exactly one is active; every transition
/// tears all entities down.
#[derive(Clone, Copy, PartialEq, Eq, Structural, Debug)]
pub enum GameState {
    Start,
    InGame,
    GameOver,
}

/// What one typed character must be to enter the player's name: printable
/// alphanumeric, no line breaks, no whitespace.
pub open spec fn name_char_ok(c: char) -> bool {
    &&& c != '\n'
    &&& c != '\r'
    &&& !is_whitespace_of(c)
    &&& is_alphanum_of(c)
}

pub uninterp spec fn is_alphanum_of(c: char) -> bool;

pub uninterp spec fn is_whitespace_of(c: char) -> bool;

/// Relies on char::is_alphanumeric: whether the character is in the
/// alphanumeric general categories; a function of the character alone.
pub assume_specification[ char::is_alphanumeric ](c: char) -> (r: bool)
    ensures
        r == is_alphanum_of(c),
;

/// Relies on char::is_whitespace: whether the character has the whitespace
/// property; a function of the character alone.
pub assume_specification[ char::is_whitespace ](c: char) -> (r: bool)
    ensures
        r == is_whitespace_of(c),
;

/// The whole game world: the active screen, the process-wide score and
/// entered name, and the entity registry, with at most one player alive.
pub struct World {
    pub state: GameState,
    pub score: u64,
    pub name: Vec<char>,
    pub player: Option<Player>,
    pub enemies: Vec<Enemy>,
    pub bullets: Vec<Bullet>,
    pub background: bool,
}

pub open spec fn world_inv(w: World) -> bool {
    &&& w.name@.len() <= 16
    &&& (w.player matches Some(p) ==> player_inv(p))
    &&& (forall|i: int| 0 <= i < w.enemies@.len() ==> enemy_inv(#[trigger] w.enemies@[i]))
    &&& (forall|i: int| 0 <= i < w.bullets@.len() ==> bullet_inv(#[trigger] w.bullets@[i]))
    &&& (w.state != GameState::InGame ==> w.player is None && w.enemies@.len() == 0
        && w.bullets@.len() == 0 && !w.background)
}

impl World {
    /// The world as the process starts: on the start screen, empty.
    pub fn new() -> (w: World)
        ensures
            world_inv(w),
            w.state == GameState::Start,
            w.score == 0,
            w.name@ == Seq::<char>::empty(),
            w.player is None,
            w.enemies@ == Seq::<Enemy>::empty(),
            w.bullets@ == Seq::<Bullet>::empty(),
            !w.background,
    {
        World {
            state: GameState::Start,
            score: 0,
            name: Vec::new(),
            player: None,
            enemies: Vec::new(),
            bullets: Vec::new(),
            background: false,
        }
    }

    /// Start-screen name entry: append one typed character. It is taken
    /// only while the name is under sixteen characters and the character is
    /// a printable alphanumeric one; anything else leaves the name as it
    /// was.
    pub fn update_player_name(&mut self, c: char)
        requires
            world_inv(*old(self)),
            old(self).state == GameState::Start,
        ensures
            world_inv(*final(self)),
            old(self).name@.len() < 16 && name_char_ok(c) ==> final(self).name@ == old(
                self,
            ).name@.push(c),
            !(old(self).name@.len() < 16 && name_char_ok(c)) ==> final(self).name@ == old(
                self,
            ).name@,
            final(self).state == old(self).state,
            final(self).score == old(self).score,
            final(self).player == old(self).player,
            final(self).enemies@ == old(self).enemies@,
            final(self).bullets@ == old(self).bullets@,
            final(self).background == old(self).background,
    {
        if self.name.len() < 16 {
            if c != '\n' && c != '\r' && !c.is_whitespace() && c.is_alphanumeric() {
                self.name.push(c);
            }
        }
    }

    /// Start-screen name entry: the backspace key drops the last character,
    /// if there is one.
    pub fn name_backspace(&mut self)
        requires
            world_inv(*old(self)),
            old(self).state == GameState::Start,
        ensures
            world_inv(*final(self)),
            old(self).name@.len() > 0 ==> final(self).name@ == old(self).name@.drop_last(),
            old(self).name@.len() == 0 ==> final(self).name@ == old(self).name@,
            final(self).state == old(self).state,
            final(self).score == old(self).score,
            final(self).player == old(self).player,
            final(self).enemies@ == old(self).enemies@,
            final(self).bullets@ == old(self).bullets@,
            final(self).background == old(self).background,
    {
        let _ = self.name.pop();
    }

    /// Destroy every entity: runs on every state exit, whatever the
    /// destination.
    pub fn teardown_all(&mut self)
        ensures
            final(self).player is None,
            final(self).enemies@ == Seq::<Enemy>::empty(),
            final(self).bullets@ == Seq::<Bullet>::empty(),
            !final(self).background,
            final(self).state == old(self).state,
            final(self).score == old(self).score,
            final(self).name@ == old(self).name@,
    {
        self.player = None;
        self.enemies.clear();
        self.bullets.clear();
        self.background = false;
    }

    /// The shared button handler of the start and game-over screens. On the
    /// start screen it begins a game: the entered name is kept, every
    /// start-screen entity is cleared, the score is reset, and the arena is
    /// set up with the background, a fresh player and two full-health wave
    /// enemies around the arena centre. On the game-over screen it goes
    /// back to name entry with everything cleared. When the entropy source
    /// fails while the opening enemies are drawn, nothing changes.
    pub fn click_button(&mut self) -> (r: Result<(), EntropyError>)
        requires
            world_inv(*old(self)),
            old(self).state != GameState::InGame,
        ensures
            world_inv(*final(self)),
            r is Err ==> *final(self) == *old(self),
            old(self).state == GameState::GameOver ==> r is Ok,
            r is Ok && old(self).state == GameState::Start ==> {
                &&& final(self).state == GameState::InGame
                &&& final(self).score == 0
                &&& final(self).name@ == old(self).name@
                &&& final(self).player == Some(Player::new_spec())
                &&& final(self).enemies@.len() == 2
                &&& (forall|i: int|
                    0 <= i < 2 ==> (#[trigger] final(self).enemies@[i]).health == 2)
                &&& final(self).bullets@.len() == 0
                &&& final(self).background
            },
            r is Ok && old(self).state == GameState::GameOver ==> {
                &&& final(self).state == GameState::Start
                &&& final(self).score == old(self).score
                &&& final(self).name@ == Seq::<char>::empty()
                &&& final(self).player is None
                &&& final(self).enemies@.len() == 0
                &&& final(self).bullets@.len() == 0
                &&& !final(self).background
            },
    {
        if self.state == GameState::Start {
            let centre = Transform { x: 0, y: 0, rot: 0 };
            let e1 = match spawn_enemy_around(&centre) {
                Ok(e) => e,
                Err(e) => {
                    return Err(e);
                },
            };
            let e2 = match spawn_enemy_around(&centre) {
                Ok(e) => e,
                Err(e) => {
                    return Err(e);
                },
            };
            self.teardown_all();
            self.state = GameState::InGame;
            self.score = 0;
            self.background = true;
            self.player = Some(Player::new());
            self.enemies.push(e1);
            self.enemies.push(e2);
            Ok(())
        } else {
            self.teardown_all();
            self.state = GameState::Start;
            self.name = Vec::new();
            Ok(())
        }
    }

    /// The transition into the game-over screen: every in-game entity is
    /// destroyed, and the captured name decides the leaderboard submission.
    /// A non-empty name asks for exactly one posting of the final score; an
    /// empty name asks for none.
    pub fn enter_game_over(&mut self) -> (submit: Option<(Vec<char>, u64)>)
        requires
            world_inv(*old(self)),
            old(self).state == GameState::InGame,
        ensures
            world_inv(*final(self)),
            final(self).state == GameState::GameOver,
            final(self).score == old(self).score,
            final(self).name@ == old(self).name@,
            final(self).player is None,
            final(self).enemies@.len() == 0,
            final(self).bullets@.len() == 0,
            old(self).name@.len() > 0 ==> (submit matches Some(s) && s.0@ == old(self).name@
                && s.1 == old(self).score),
            old(self).name@.len() == 0 ==> submit is None,
    {
        let submit = if self.name.len() > 0 {
            Some((clone_name(&self.name), self.score))
        } else {
            None
        };
        self.teardown_all();
        self.state = GameState::GameOver;
        submit
    }
}

/// A copy of the entered name, character for character.
fn clone_name(name: &Vec<char>) -> (r: Vec<char>)
    ensures
        r@ == name@,
{
    let mut out: Vec<char> = Vec::new();
    let mut i: usize = 0;
    while i < name.len()
        invariant
            i <= name@.len(),
            out@ == name@.subrange(0, i as int),
        decreases name@.len() - i,
    {
        out.push(name[i]);
        proof {
            assert(out@ =~= name@.subrange(0, i + 1 as int));
        }
        i = i + 1;
    }
    proof {
        assert(out@ =~= name@);
    }
    out
}

} // verus!
