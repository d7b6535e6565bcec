//! One frame of the simulation, and runs of frames.

use vstd::prelude::*;
use crate::collision::{lemma_check_collision_wf, sweep};
use crate::lifecycle::lemma_advance_ids;
use crate::spawning::lemma_shoot_bullet_wf;
use crate::config::PLAYER_LIMIT;
use crate::input::{count_fire, KeyboardInput};
use crate::movement::lemma_formation_step;
use crate::store::{Game, GameState};

verus! {

/// What one frame brings, as the contracts see it.
#[verifier::ext_equal]
pub struct Frame {
    /// The left key is held.
    pub left: bool,
    /// The right key is held.
    pub right: bool,
    /// The key events since the frame before.
    pub events: Seq<KeyboardInput>,
    /// The microseconds since the frame before.
    pub dt: nat,
}

/// What one frame brings.
pub struct FrameInput {
    /// The left key is held.
    pub left: bool,
    /// The right key is held.
    pub right: bool,
    /// The key events since the frame before.
    pub events: Vec<KeyboardInput>,
    /// The microseconds since the frame before.
    pub dt: u64,
}

impl View for FrameInput {
    type V = Frame;

    open spec fn view(&self) -> Frame {
        Frame { left: self.left, right: self.right, events: self.events@, dt: self.dt as nat }
    }
}

impl GameState {
    /// The state in the middle of a frame, when the player and the enemies
    /// have moved and the frame's bullets have been fired.
    pub open spec fn fired(self, frame: Frame) -> GameState {
        self.move_player(frame.left, frame.right, frame.dt as int).move_enemy(
            frame.dt as int,
        ).shoot_bullet(frame.events)
    }

    /// The state after one frame: the player moves, the enemies move, the
    /// bullets of the frame are fired, all bullets fly, and collisions are
    /// resolved, in this order.
    pub open spec fn tick(self, frame: Frame) -> GameState {
        self.fired(frame).move_bullet(frame.dt as int).check_collision()
    }

    /// The state after the frames, first to last.
    pub open spec fn run(self, frames: Seq<Frame>) -> GameState
        decreases frames.len(),
    {
        if frames.len() == 0 {
            self
        } else {
            self.run(frames.drop_last()).tick(frames.last())
        }
    }
}

/// A frame keeps a well-formed state well-formed, as long as the
/// identifiers last.
pub proof fn lemma_tick_wf(state: GameState, frame: Frame)
    requires
        state.wf(),
        state.can_fire(frame.events),
    ensures
        state.tick(frame).wf(),
{
    let walked = state.move_player(frame.left, frame.right, frame.dt as int);
    let marched = walked.move_enemy(frame.dt as int);
    lemma_formation_step(walked, frame.dt as int);
    assert(marched.wf()) by {
        assert forall|i: int| 0 <= i < marched.enemies.len() implies (#[trigger] marched.enemies[i]).id
            == state.enemies[i].id by {}
    }
    lemma_shoot_bullet_wf(marched, frame.events);
    let fired = marched.shoot_bullet(frame.events);
    lemma_advance_ids(fired.bullets, frame.dt as int, fired.next_id);
    lemma_check_collision_wf(fired.move_bullet(frame.dt as int));
}

/// After a frame the player stands within its limits, whatever the keys
/// and however long the frame.
pub proof fn lemma_tick_holds_player(state: GameState, frame: Frame)
    ensures
        state.tick(frame).player matches Some(p) ==> -PLAYER_LIMIT <= p.position.x <= PLAYER_LIMIT,
        state.tick(frame).player is Some <==> state.player is Some,
{
}

/// After any run of at least one frame the player stands within its
/// limits.
pub proof fn lemma_run_holds_player(state: GameState, frames: Seq<Frame>)
    requires
        frames.len() > 0,
    ensures
        state.run(frames).player matches Some(p) ==> -PLAYER_LIMIT <= p.position.x <= PLAYER_LIMIT,
{
    lemma_tick_holds_player(state.run(frames.drop_last()), frames.last());
}

/// A frame takes from the player's health one point for each hit that the
/// collision pass counts, down to 0, and never adds to it.
pub proof fn lemma_tick_health(state: GameState, frame: Frame)
    ensures
        state.tick(frame).health() <= state.health(),
        state.tick(frame).health() == vstd::math::max(
            0,
            state.health() - sweep(
                state.fired(frame).move_bullet(frame.dt as int).bullets,
                state.fired(frame).move_bullet(frame.dt as int).enemies,
                state.fired(frame).move_bullet(frame.dt as int).player,
                state.player_test,
            ).player_hits,
        ),
{
}

/// Over any run of frames the player's health never rises.
pub proof fn lemma_run_health(state: GameState, frames: Seq<Frame>)
    ensures
        state.run(frames).health() <= state.health(),
    decreases frames.len(),
{
    if frames.len() > 0 {
        lemma_run_health(state, frames.drop_last());
        lemma_tick_health(state.run(frames.drop_last()), frames.last());
    }
}

/// A run can be cut in two: the state after all the frames is the state
/// after the later ones, begun where the earlier ones ended.
pub proof fn lemma_run_split(state: GameState, first: Seq<Frame>, second: Seq<Frame>)
    ensures
        state.run(first + second) == state.run(first).run(second),
    decreases second.len(),
{
    if second.len() == 0 {
        assert(first + second =~= first);
    } else {
        lemma_run_split(state, first, second.drop_last());
        assert((first + second).drop_last() =~= first + second.drop_last());
        assert((first + second).last() == second.last());
    }
}

/// Health at a later moment of a run is no more than at an earlier one.
pub proof fn lemma_health_monotone(state: GameState, frames: Seq<Frame>, i: int, j: int)
    requires
        0 <= i <= j <= frames.len(),
    ensures
        state.run(frames.take(j)).health() <= state.run(frames.take(i)).health(),
{
    assert(frames.take(j) =~= frames.take(i) + frames.subrange(i, j));
    lemma_run_split(state, frames.take(i), frames.subrange(i, j));
    lemma_run_health(state.run(frames.take(i)), frames.subrange(i, j));
}

/// A frame whose batch holds one press of the fire key fires one bullet,
/// however long the frame and whatever else the batch holds.
pub proof fn lemma_frame_fires_once(state: GameState, frame: Frame)
    requires
        state.player is Some,
        count_fire(frame.events) == 1,
    ensures
        state.fired(frame).bullets.len() == state.bullets.len() + 1,
        state.fired(frame).bullets.drop_last() == state.bullets,
        state.fired(frame).bullets.last().id == state.next_id as u64,
        state.fired(frame).next_id == state.next_id + 1,
{
    assert(state.fired(frame).bullets.drop_last() =~= state.bullets);
}

impl Game {
    /// Runs one frame: the player's movement, the enemies' movement,
    /// firing, the bullets' flight and the collision pass, in this order.
    pub fn tick(&mut self, input: &FrameInput)
        requires
            old(self).wf(),
            old(self)@.can_fire(input@.events),
        ensures
            final(self).wf(),
            final(self)@ == old(self)@.tick(input@),
            final(self)@.player matches Some(p) ==> -PLAYER_LIMIT <= p.position.x <= PLAYER_LIMIT,
            final(self)@.health() <= old(self)@.health(),
    {
        self.move_player(input.left, input.right, input.dt);
        self.move_enemy(input.dt);
        self.shoot_bullet(&input.events);
        self.move_bullet(input.dt);
        self.check_collision();
        proof {
            lemma_tick_holds_player(old(self)@, input@);
            lemma_tick_health(old(self)@, input@);
        }
    }
}

} // verus!
