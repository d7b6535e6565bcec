//! Firing: from key events to new bullets.

use vstd::prelude::*;
use crate::config::BULLET_OFFSET;
use crate::entity::{Bullet, Player};
use crate::geometry::{saturate, saturate_exec, Position};
use crate::input::{
    count_fire, fire_count, lemma_count_fire_push, lemma_count_fire_take, KeyboardInput,
};
use crate::store::{Game, GameState};

verus! {

/// Where the player's bullets appear: at the player's place, moved forward
/// so that a new bullet does not touch the player.
pub open spec fn bullet_origin(player: Player) -> Position {
    Position { x: player.position.x, z: saturate(player.position.z + BULLET_OFFSET) }
}

/// `count` bullets at `origin`, with the identifiers from `first_id` on.
pub open spec fn fresh_bullets(origin: Position, first_id: nat, count: nat) -> Seq<Bullet> {
    Seq::new(count, |i: int| Bullet { id: (first_id + i) as u64, position: origin })
}

impl GameState {
    /// The state after firing: one new bullet for each event of the batch
    /// that reports a press of the fire key, behind the bullets that were
    /// there. Without a player the state stays as it is.
    pub open spec fn shoot_bullet(self, events: Seq<KeyboardInput>) -> GameState {
        match self.player {
            Some(p) => GameState {
                bullets: self.bullets + fresh_bullets(
                    bullet_origin(p),
                    self.next_id,
                    count_fire(events),
                ),
                next_id: self.next_id + count_fire(events),
                ..self
            },
            None => self,
        }
    }
}

/// Computes [`bullet_origin`].
pub fn bullet_origin_exec(player: &Player) -> (origin: Position)
    ensures
        origin == bullet_origin(*player),
{
    Position { x: player.position.x, z: saturate_exec(player.position.z as i128 + BULLET_OFFSET as i128) }
}

impl GameState {
    /// There are identifiers left for every bullet that the batch fires.
    pub open spec fn can_fire(self, events: Seq<KeyboardInput>) -> bool {
        self.player is Some ==> self.next_id + count_fire(events) <= u64::MAX
    }
}

impl Game {
    /// Whether there are identifiers left for every bullet that the batch
    /// fires.
    pub fn can_fire(&self, events: &Vec<KeyboardInput>) -> (r: bool)
        ensures
            r == self@.can_fire(events@),
    {
        match self.player {
            Some(_) => {
                let n: usize = fire_count(events);
                n as u128 + self.next_id as u128 <= u64::MAX as u128
            },
            None => true,
        }
    }

    /// Reads the batch of key events and creates one bullet in front of
    /// the player for each press of the fire key. Releases and other keys
    /// create nothing, and so does every event while there is no player.
    pub fn shoot_bullet(&mut self, events: &Vec<KeyboardInput>)
        requires
            old(self).wf(),
            old(self)@.can_fire(events@),
        ensures
            final(self).wf(),
            final(self)@ == old(self)@.shoot_bullet(events@),
            final(self)@.bullets.len() == old(self)@.bullets.len() + if old(self)@.player is Some {
                count_fire(events@)
            } else {
                0
            },
    {
        let ghost before = self@;
        match self.player {
            Some(p) => {
                let origin: Position = bullet_origin_exec(&p);
                let ghost mut fired: nat = 0;
                let mut i: usize = 0;
                while i < events.len()
                    invariant
                        i <= events.len(),
                        before.wf(),
                        before.next_id + count_fire(events@) <= u64::MAX,
                        fired == count_fire(events@.take(i as int)),
                        self.next_id == before.next_id + fired,
                        self.bullets@ == before.bullets + fresh_bullets(origin, before.next_id, fired),
                        self.player == before.player,
                        self.enemies@ == before.enemies,
                        self.enemy_direction == before.enemy_direction,
                        self.player_test == before.player_test,
                    decreases events.len() - i,
                {
                    proof {
                        lemma_count_fire_take(events@, i + 1);
                        assert(events@.take(i + 1) =~= events@.take(i as int).push(events@[i as int]));
                        lemma_count_fire_push(events@.take(i as int), events@[i as int]);
                    }
                    if events[i].fires() {
                        self.bullets.push(Bullet { id: self.next_id, position: origin });
                        self.next_id = self.next_id + 1;
                        proof {
                            fired = fired + 1;
                        }
                    }
                    i += 1;
                }
                proof {
                    assert(events@.take(events@.len() as int) =~= events@);
                    assert(self@ =~= before.shoot_bullet(events@));
                    lemma_shoot_bullet_wf(before, events@);
                }
            },
            None => {},
        }
    }
}

/// Firing adds one bullet for each press of the fire key in the batch,
/// behind the bullets that were there, each at the place in front of the
/// player; it changes nothing else but the next identifier.
pub proof fn lemma_shots_fired(state: GameState, events: Seq<KeyboardInput>)
    requires
        state.player is Some,
    ensures
        state.shoot_bullet(events).bullets.len() == state.bullets.len() + count_fire(events),
        state.shoot_bullet(events).bullets.take(state.bullets.len() as int) == state.bullets,
        forall|i: int|
            state.bullets.len() <= i < state.bullets.len() + count_fire(events) ==> (
            #[trigger] state.shoot_bullet(events).bullets[i]).position == bullet_origin(
                state.player->0,
            ),
        state.shoot_bullet(events).player == state.player,
        state.shoot_bullet(events).enemies == state.enemies,
        state.shoot_bullet(events).enemy_direction == state.enemy_direction,
{
    assert(state.shoot_bullet(events).bullets.take(state.bullets.len() as int) =~= state.bullets);
}

/// A batch that holds nothing but one press of the fire key counts as one
/// shot; one that holds nothing but a release of it, or a press of another
/// key, counts as none.
pub proof fn lemma_single_event(event: KeyboardInput)
    ensures
        count_fire(seq![event]) == if event.is_fire() {
            1nat
        } else {
            0nat
        },
        count_fire(Seq::<KeyboardInput>::empty()) == 0,
{
    reveal(Seq::filter);
    assert(seq![event] =~= Seq::<KeyboardInput>::empty().push(event));
    lemma_count_fire_push(Seq::<KeyboardInput>::empty(), event);
}

/// Firing keeps a well-formed state well-formed, as long as the
/// identifiers last.
pub proof fn lemma_shoot_bullet_wf(state: GameState, events: Seq<KeyboardInput>)
    requires
        state.wf(),
        state.can_fire(events),
    ensures
        state.shoot_bullet(events).wf(),
{
    let after = state.shoot_bullet(events);
    if state.player is Some {
        let old_len = state.bullets.len() as int;
        assert forall|i: int| 0 <= i < after.bullets.len() implies (#[trigger] after.bullets[i]).id
            < after.next_id by {
            if i < old_len {
                assert(after.bullets[i] == state.bullets[i]);
            }
        }
        assert forall|i: int, j: int| 0 <= i < j < after.bullets.len() implies (
        #[trigger] after.bullets[i]).id != (#[trigger] after.bullets[j]).id by {
            if i < old_len {
                assert(after.bullets[i] == state.bullets[i]);
            }
            if j < old_len {
                assert(after.bullets[j] == state.bullets[j]);
            }
        }
        assert forall|i: int| 0 <= i < after.enemies.len() implies (#[trigger] after.enemies[i]).id
            < after.next_id by {
            assert(state.enemies[i].id < state.next_id);
        }
    }
}

} // verus!
