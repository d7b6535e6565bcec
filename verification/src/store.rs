//! The entity store: the player, the enemies, the bullets and the state
//! that they share.

use vstd::prelude::*;
use crate::entity::{Bullet, Direction, Enemy, Player};
use crate::geometry::Position;

verus! {

/// Whether a bullet that has just destroyed an enemy is still tested
/// against the player.
#[derive(Clone, Copy, Debug, PartialEq, Eq, Structural)]
pub enum PlayerTest {
    /// A bullet that hit an enemy is gone and is not tested again.
    SkipResolved,
    /// Every bullet is tested against the player, whatever became of it
    /// among the enemies.
    Always,
}

/// No two enemies of the list share an identifier.
pub open spec fn enemy_ids_distinct(enemies: Seq<Enemy>) -> bool {
    forall|i: int, j: int|
        0 <= i < j < enemies.len() ==> (#[trigger] enemies[i]).id != (#[trigger] enemies[j]).id
}

/// No two bullets of the list share an identifier.
pub open spec fn bullet_ids_distinct(bullets: Seq<Bullet>) -> bool {
    forall|i: int, j: int|
        0 <= i < j < bullets.len() ==> (#[trigger] bullets[i]).id != (#[trigger] bullets[j]).id
}

/// Every enemy of the list has an identifier below `bound`.
pub open spec fn enemy_ids_below(enemies: Seq<Enemy>, bound: nat) -> bool {
    forall|i: int| 0 <= i < enemies.len() ==> (#[trigger] enemies[i]).id < bound
}

/// Every bullet of the list has an identifier below `bound`.
pub open spec fn bullet_ids_below(bullets: Seq<Bullet>, bound: nat) -> bool {
    forall|i: int| 0 <= i < bullets.len() ==> (#[trigger] bullets[i]).id < bound
}

/// The state of a game as the contracts see it.
#[verifier::ext_equal]
pub struct GameState {
    pub player: Option<Player>,
    pub enemies: Seq<Enemy>,
    pub bullets: Seq<Bullet>,
    pub enemy_direction: Direction,
    pub player_test: PlayerTest,
    /// The identifier that the next entity will get.
    pub next_id: nat,
}

impl GameState {
    /// Identifiers are below `next_id`, and no two enemies and no two
    /// bullets share one.
    pub open spec fn wf(self) -> bool {
        &&& enemy_ids_below(self.enemies, self.next_id)
        &&& bullet_ids_below(self.bullets, self.next_id)
        &&& enemy_ids_distinct(self.enemies)
        &&& bullet_ids_distinct(self.bullets)
    }

    /// The player's health, 0 where there is no player.
    pub open spec fn health(self) -> nat {
        match self.player {
            Some(p) => p.health as nat,
            None => 0,
        }
    }

    /// There is an enemy with this identifier.
    pub open spec fn has_enemy(self, id: u64) -> bool {
        exists|k: int| 0 <= k < self.enemies.len() && (#[trigger] self.enemies[k]).id == id
    }

    /// There is a bullet with this identifier.
    pub open spec fn has_bullet(self, id: u64) -> bool {
        exists|k: int| 0 <= k < self.bullets.len() && (#[trigger] self.bullets[k]).id == id
    }

    /// The state with this player in place of the one before, if any.
    pub open spec fn with_player(self, position: Position, health: u32) -> GameState {
        GameState { player: Some(Player { position, health }), ..self }
    }

    /// The state with one more enemy, last in line, under the next
    /// identifier.
    pub open spec fn with_enemy(self, position: Position) -> GameState {
        GameState {
            enemies: self.enemies.push(Enemy { id: self.next_id as u64, position }),
            next_id: self.next_id + 1,
            ..self
        }
    }

    /// The state with one more bullet, last in line, under the next
    /// identifier.
    pub open spec fn with_bullet(self, position: Position) -> GameState {
        GameState {
            bullets: self.bullets.push(Bullet { id: self.next_id as u64, position }),
            next_id: self.next_id + 1,
            ..self
        }
    }

    /// The state of an empty store.
    pub open spec fn empty(player_test: PlayerTest) -> GameState {
        GameState {
            player: None,
            enemies: Seq::empty(),
            bullets: Seq::empty(),
            enemy_direction: Direction::Negative,
            player_test,
            next_id: 0,
        }
    }
}

/// The entity store.
pub struct Game {
    pub(crate) player: Option<Player>,
    pub(crate) enemies: Vec<Enemy>,
    pub(crate) bullets: Vec<Bullet>,
    pub(crate) enemy_direction: Direction,
    pub(crate) player_test: PlayerTest,
    pub(crate) next_id: u64,
}

impl View for Game {
    type V = GameState;

    open(crate) spec fn view(&self) -> GameState {
        GameState {
            player: self.player,
            enemies: self.enemies@,
            bullets: self.bullets@,
            enemy_direction: self.enemy_direction,
            player_test: self.player_test,
            next_id: self.next_id as nat,
        }
    }
}

impl Game {
    /// The store's invariant: that of its state.
    pub open spec fn wf(&self) -> bool {
        self@.wf()
    }

    /// An empty store: no player, no enemies, no bullets.
    pub fn new(player_test: PlayerTest) -> (g: Game)
        ensures
            g.wf(),
            g@ == GameState::empty(player_test),
    {
        Game {
            player: None,
            enemies: Vec::new(),
            bullets: Vec::new(),
            enemy_direction: Direction::Negative,
            player_test,
            next_id: 0,
        }
    }

    /// Puts the player in place. A player that was there before is
    /// replaced: there is never more than one.
    pub fn spawn_player(&mut self, position: Position, health: u32)
        requires
            old(self).wf(),
        ensures
            final(self).wf(),
            final(self)@ == old(self)@.with_player(position, health),
    {
        self.player = Some(Player { position, health });
        proof {
            assert(self@ =~= old(self)@.with_player(position, health));
        }
    }

    /// Adds an enemy and returns its identifier.
    pub fn spawn_enemy(&mut self, position: Position) -> (id: u64)
        requires
            old(self).wf(),
            old(self)@.next_id < u64::MAX,
        ensures
            final(self).wf(),
            final(self)@ == old(self)@.with_enemy(position),
            id == old(self)@.next_id,
            !old(self)@.has_enemy(id),
            final(self)@.has_enemy(id),
    {
        let id: u64 = self.next_id;
        self.enemies.push(Enemy { id, position });
        self.next_id = id + 1;
        proof {
            assert(self@ =~= old(self)@.with_enemy(position));
            assert(self@.enemies[self@.enemies.len() - 1].id == id);
            assert forall|i: int, j: int| 0 <= i < j < self@.enemies.len() implies (
            #[trigger] self@.enemies[i]).id != (#[trigger] self@.enemies[j]).id by {
                assert(self@.enemies[i] == old(self)@.enemies[i]);
                if j < old(self)@.enemies.len() {
                    assert(self@.enemies[j] == old(self)@.enemies[j]);
                }
            }
        }
        id
    }

    /// Adds a bullet and returns its identifier.
    pub fn spawn_bullet(&mut self, position: Position) -> (id: u64)
        requires
            old(self).wf(),
            old(self)@.next_id < u64::MAX,
        ensures
            final(self).wf(),
            final(self)@ == old(self)@.with_bullet(position),
            id == old(self)@.next_id,
            !old(self)@.has_bullet(id),
            final(self)@.has_bullet(id),
    {
        let id: u64 = self.next_id;
        self.bullets.push(Bullet { id, position });
        self.next_id = id + 1;
        proof {
            assert(self@ =~= old(self)@.with_bullet(position));
            assert(self@.bullets[self@.bullets.len() - 1].id == id);
            assert forall|i: int, j: int| 0 <= i < j < self@.bullets.len() implies (
            #[trigger] self@.bullets[i]).id != (#[trigger] self@.bullets[j]).id by {
                assert(self@.bullets[i] == old(self)@.bullets[i]);
                if j < old(self)@.bullets.len() {
                    assert(self@.bullets[j] == old(self)@.bullets[j]);
                }
            }
        }
        id
    }

    /// Removes the enemy with this identifier, if there is one, and says
    /// whether there was.
    pub fn despawn_enemy(&mut self, id: u64) -> (found: bool)
        requires
            old(self).wf(),
        ensures
            final(self).wf(),
            found == old(self)@.has_enemy(id),
            !final(self)@.has_enemy(id),
            !found ==> final(self)@ == old(self)@,
            found ==> exists|k: int|
                0 <= k < old(self)@.enemies.len() && (#[trigger] old(self)@.enemies[k]).id == id
                    && final(self)@ == (GameState {
                    enemies: old(self)@.enemies.remove(k),
                    ..old(self)@
                }),
    {
        let ghost before = self@;
        let mut k: usize = 0;
        while k < self.enemies.len()
            invariant
                k <= self.enemies.len(),
                self@ == before,
                before == old(self)@,
                before.wf(),
                forall|j: int| 0 <= j < k ==> (#[trigger] before.enemies[j]).id != id,
            decreases self.enemies.len() - k,
        {
            if self.enemies[k].id == id {
                self.enemies.remove(k);
                proof {
                    let after = self@;
                    assert(after =~= (GameState { enemies: before.enemies.remove(k as int), ..before }));
                    assert(before.enemies[k as int].id == id);
                    assert forall|i: int| 0 <= i < after.enemies.len() implies (
                    #[trigger] after.enemies[i]).id != id && after.enemies[i].id < after.next_id by {
                        let i0 = if i < k { i } else { i + 1 };
                        assert(after.enemies[i] == before.enemies[i0]);
                    }
                    assert forall|i: int, j: int| 0 <= i < j < after.enemies.len() implies (
                    #[trigger] after.enemies[i]).id != (#[trigger] after.enemies[j]).id by {
                        let i0 = if i < k { i } else { i + 1 };
                        let j0 = if j < k { j } else { j + 1 };
                        assert(after.enemies[i] == before.enemies[i0]);
                        assert(after.enemies[j] == before.enemies[j0]);
                    }
                }
                return true;
            }
            k += 1;
        }
        false
    }

    /// Removes the bullet with this identifier, if there is one, and says
    /// whether there was.
    pub fn despawn_bullet(&mut self, id: u64) -> (found: bool)
        requires
            old(self).wf(),
        ensures
            final(self).wf(),
            found == old(self)@.has_bullet(id),
            !final(self)@.has_bullet(id),
            !found ==> final(self)@ == old(self)@,
            found ==> exists|k: int|
                0 <= k < old(self)@.bullets.len() && (#[trigger] old(self)@.bullets[k]).id == id
                    && final(self)@ == (GameState {
                    bullets: old(self)@.bullets.remove(k),
                    ..old(self)@
                }),
    {
        let ghost before = self@;
        let mut k: usize = 0;
        while k < self.bullets.len()
            invariant
                k <= self.bullets.len(),
                self@ == before,
                before == old(self)@,
                before.wf(),
                forall|j: int| 0 <= j < k ==> (#[trigger] before.bullets[j]).id != id,
            decreases self.bullets.len() - k,
        {
            if self.bullets[k].id == id {
                self.bullets.remove(k);
                proof {
                    let after = self@;
                    assert(after =~= (GameState { bullets: before.bullets.remove(k as int), ..before }));
                    assert(before.bullets[k as int].id == id);
                    assert forall|i: int| 0 <= i < after.bullets.len() implies (
                    #[trigger] after.bullets[i]).id != id && after.bullets[i].id < after.next_id by {
                        let i0 = if i < k { i } else { i + 1 };
                        assert(after.bullets[i] == before.bullets[i0]);
                    }
                    assert forall|i: int, j: int| 0 <= i < j < after.bullets.len() implies (
                    #[trigger] after.bullets[i]).id != (#[trigger] after.bullets[j]).id by {
                        let i0 = if i < k { i } else { i + 1 };
                        let j0 = if j < k { j } else { j + 1 };
                        assert(after.bullets[i] == before.bullets[i0]);
                        assert(after.bullets[j] == before.bullets[j0]);
                    }
                }
                return true;
            }
            k += 1;
        }
        false
    }

    /// The player, if there is one.
    pub fn player(&self) -> (p: Option<Player>)
        ensures
            p == self@.player,
    {
        self.player
    }

    /// The enemies, in the order in which they came.
    pub fn enemies(&self) -> (v: &Vec<Enemy>)
        ensures
            v@ == self@.enemies,
    {
        &self.enemies
    }

    /// The bullets, in the order in which they came.
    pub fn bullets(&self) -> (v: &Vec<Bullet>)
        ensures
            v@ == self@.bullets,
    {
        &self.bullets
    }

    /// The player's health, 0 where there is no player.
    pub fn health(&self) -> (h: u32)
        ensures
            h == self@.health(),
    {
        match self.player {
            Some(p) => p.health,
            None => 0,
        }
    }

    /// Whether the game is over: there is a player, and its health is
    /// spent.
    pub fn is_over(&self) -> (r: bool)
        ensures
            r == (self@.player is Some && self@.health() == 0),
    {
        match self.player {
            Some(p) => p.health == 0,
            None => false,
        }
    }

    /// The identifier that the next entity will get.
    pub fn next_id(&self) -> (id: u64)
        ensures
            id == self@.next_id,
    {
        self.next_id
    }

    /// How the collision pass treats a bullet that has hit an enemy.
    pub fn player_test(&self) -> (t: PlayerTest)
        ensures
            t == self@.player_test,
    {
        self.player_test
    }

    /// The direction in which the formation moves next.
    pub fn enemy_direction(&self) -> (d: Direction)
        ensures
            d == self@.enemy_direction,
    {
        self.enemy_direction
    }
}

} // verus!
