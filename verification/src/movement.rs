//! Movement of the player and of the formation of enemies.

use vstd::prelude::*;
use crate::config::{ENEMY_LIMIT, ENEMY_SPEED, PLAYER_LIMIT, PLAYER_SPEED};
use crate::entity::{Direction, Enemy, Player};
use crate::geometry::{clamp, saturate, saturate_exec, Position};
use crate::store::{Game, GameState};

verus! {

/// The sign of the player's movement: `+1` while the left key is held,
/// `-1` while only the right key is held, 0 while neither is.
pub open spec fn player_direction(left: bool, right: bool) -> int {
    if left {
        1
    } else if right {
        -1
    } else {
        0
    }
}

/// Where a player at `x` stands after `dt` microseconds: moved at the
/// player's speed, then held within the player's limits.
pub open spec fn player_step(x: int, left: bool, right: bool, dt: int) -> int {
    clamp(
        x + PLAYER_SPEED * dt * player_direction(left, right),
        -PLAYER_LIMIT as int,
        PLAYER_LIMIT as int,
    )
}

/// Where an enemy at `x` stands after `dt` microseconds of movement in
/// `direction`.
pub open spec fn enemy_step(x: int, direction: Direction, dt: int) -> i64 {
    saturate(x + ENEMY_SPEED * dt * direction.sign())
}

/// An enemy at `x` has reached the place where the formation turns.
pub open spec fn at_boundary(x: int) -> bool {
    vstd::math::abs(x) >= ENEMY_LIMIT
}

/// Some enemy of the list has reached the place where the formation turns.
pub open spec fn any_at_boundary(enemies: Seq<Enemy>) -> bool {
    exists|i: int| 0 <= i < enemies.len() && at_boundary((#[trigger] enemies[i]).position.x as int)
}

/// The enemy after `dt` microseconds of movement in `direction`. Its depth
/// stays as it is.
pub open spec fn moved_enemy(enemy: Enemy, direction: Direction, dt: int) -> Enemy {
    Enemy {
        id: enemy.id,
        position: Position {
            x: enemy_step(enemy.position.x as int, direction, dt),
            z: enemy.position.z,
        },
    }
}

/// The player after `dt` microseconds with the given keys held. The
/// player's depth and health stay as they are.
pub open spec fn moved_player(player: Player, left: bool, right: bool, dt: int) -> Player {
    Player {
        position: Position {
            x: player_step(player.position.x as int, left, right, dt) as i64,
            z: player.position.z,
        },
        health: player.health,
    }
}

impl GameState {
    /// The state after the player's movement.
    pub open spec fn move_player(self, left: bool, right: bool, dt: int) -> GameState {
        GameState {
            player: match self.player {
                Some(p) => Some(moved_player(p, left, right, dt)),
                None => None,
            },
            ..self
        }
    }

    /// The state after the formation's movement. Every enemy moves in the
    /// direction that the formation had before; the direction turns for
    /// the time after if any enemy stands at the boundary once all have
    /// moved.
    pub open spec fn move_enemy(self, dt: int) -> GameState {
        let direction = self.enemy_direction;
        let moved = self.enemies.map_values(|e: Enemy| moved_enemy(e, direction, dt));
        GameState {
            enemies: moved,
            enemy_direction: if any_at_boundary(moved) {
                direction.flipped()
            } else {
                direction
            },
            ..self
        }
    }
}

/// The player's place after a step lies within the player's limits,
/// wherever it was before, whatever the keys, however long the step.
pub proof fn lemma_player_within_limits(x: int, left: bool, right: bool, dt: int)
    ensures
        -PLAYER_LIMIT <= player_step(x, left, right, dt) <= PLAYER_LIMIT,
        PLAYER_LIMIT == crate::config::PLAYGROUND_WIDTH / 2 - crate::config::PLAYER_MARGIN,
{
}

/// With no key held a player within its limits stays where it is, and
/// with both keys held it moves as with the left key alone.
pub proof fn lemma_player_keys(x: int, dt: int)
    ensures
        -PLAYER_LIMIT <= x <= PLAYER_LIMIT ==> player_step(x, false, false, dt) == x,
        player_step(x, true, true, dt) == player_step(x, true, false, dt),
{
    assert(PLAYER_SPEED * dt * 0 == 0) by (nonlinear_arith);
}

/// One step of the formation: every enemy moves in the direction that the
/// formation had before the step, and keeps its depth and its identifier.
/// The direction after the step is the opposite one if any enemy then
/// stands at the boundary, and the same if none does: one enemy there or
/// many, it turns once.
pub proof fn lemma_formation_step(state: GameState, dt: int)
    ensures
        state.move_enemy(dt).enemies.len() == state.enemies.len(),
        forall|i: int|
            0 <= i < state.enemies.len() ==> #[trigger] state.move_enemy(dt).enemies[i]
                == moved_enemy(state.enemies[i], state.enemy_direction, dt),
        any_at_boundary(state.move_enemy(dt).enemies) ==> state.move_enemy(dt).enemy_direction
            == state.enemy_direction.flipped(),
        !any_at_boundary(state.move_enemy(dt).enemies) ==> state.move_enemy(dt).enemy_direction
            == state.enemy_direction,
        state.enemy_direction.flipped() != state.enemy_direction,
        state.enemy_direction.flipped().flipped() == state.enemy_direction,
{
}

/// A formation that moves towards smaller `x` and reaches the boundary
/// moves towards larger `x` in the step that follows: no enemy then
/// stands further towards smaller `x` than before.
pub proof fn lemma_reflection(state: GameState, dt: int, next_dt: int)
    requires
        state.enemy_direction == Direction::Negative,
        any_at_boundary(state.move_enemy(dt).enemies),
        0 <= next_dt,
    ensures
        state.move_enemy(dt).enemy_direction == Direction::Positive,
        forall|i: int|
            0 <= i < state.enemies.len() ==> (#[trigger] state.move_enemy(dt).move_enemy(
                next_dt,
            ).enemies[i]).position.x == saturate(
                state.move_enemy(dt).enemies[i].position.x + ENEMY_SPEED * next_dt,
            ),
        forall|i: int|
            0 <= i < state.enemies.len() ==> (#[trigger] state.move_enemy(dt).move_enemy(
                next_dt,
            ).enemies[i]).position.x >= state.move_enemy(dt).enemies[i].position.x,
{
    let first = state.move_enemy(dt);
    let second = first.move_enemy(next_dt);
    lemma_formation_step(state, dt);
    lemma_formation_step(first, next_dt);
    assert(ENEMY_SPEED * next_dt * 1 == ENEMY_SPEED * next_dt && ENEMY_SPEED * next_dt >= 0)
        by (nonlinear_arith)
        requires
            ENEMY_SPEED == 3,
            next_dt >= 0,
    ;
    assert forall|i: int| 0 <= i < state.enemies.len() implies (#[trigger] second.enemies[i]).position.x
        == saturate(first.enemies[i].position.x + ENEMY_SPEED * next_dt) by {
        assert(second.enemies[i] == moved_enemy(first.enemies[i], Direction::Positive, next_dt));
    }
}

impl GameState {
    /// The state after `n` steps of the formation, each of `dt`
    /// microseconds.
    pub open spec fn march(self, dt: int, n: nat) -> GameState
        decreases n,
    {
        if n == 0 {
            self
        } else {
            self.march(dt, (n - 1) as nat).move_enemy(dt)
        }
    }
}

/// The most steps that a formation can make before an enemy reaches the
/// boundary.
pub open spec fn longest_march() -> nat {
    3_000_001
}

/// While no enemy has reached the boundary, the formation keeps its
/// direction, and its first enemy comes nearer to the boundary with every
/// step.
proof fn lemma_march_inside(state: GameState, dt: int, n: nat)
    requires
        state.enemies.len() > 0,
        dt > 0,
        n >= 1,
        forall|m: nat| 1 <= m <= n ==> !any_at_boundary(#[trigger] state.march(dt, m).enemies),
    ensures
        state.march(dt, n).enemy_direction == state.enemy_direction,
        state.march(dt, n).enemies.len() == state.enemies.len(),
        !at_boundary(state.march(dt, n).enemies[0].position.x as int),
        state.enemy_direction == Direction::Negative ==> state.march(dt, n).enemies[0].position.x
            <= state.march(dt, 1).enemies[0].position.x - 3 * (n - 1),
        state.enemy_direction == Direction::Positive ==> state.march(dt, n).enemies[0].position.x
            >= state.march(dt, 1).enemies[0].position.x + 3 * (n - 1),
    decreases n,
{
    let here = state.march(dt, n);
    let before = state.march(dt, (n - 1) as nat);
    assert(here == before.move_enemy(dt));
    assert(!any_at_boundary(here.enemies));
    if n == 1 {
        assert(before == state);
        lemma_formation_step(state, dt);
        assert(!at_boundary(here.enemies[0].position.x as int));
    } else {
        assert forall|m: nat| 1 <= m <= (n - 1) as nat implies !any_at_boundary(
            #[trigger] state.march(dt, m).enemies,
        ) by {}
        lemma_march_inside(state, dt, (n - 1) as nat);
        lemma_formation_step(before, dt);
        assert(here.enemies[0] == moved_enemy(before.enemies[0], state.enemy_direction, dt));
        assert(!at_boundary(here.enemies[0].position.x as int));
        let sign = state.enemy_direction.sign();
        assert(ENEMY_SPEED * dt * sign == 3 * dt * sign && (sign == -1 ==> 3 * dt * sign <= -3) && (sign
            == 1 ==> 3 * dt * sign >= 3)) by (nonlinear_arith)
            requires
                ENEMY_SPEED == 3,
                dt >= 1,
                sign == 1 || sign == -1,
        ;
    }
}

/// Looks for the first step at which an enemy stands at the boundary, from
/// step `k` on.
proof fn lemma_march_search(state: GameState, dt: int, k: nat) -> (n: nat)
    requires
        state.enemies.len() > 0,
        dt > 0,
        1 <= k <= longest_march(),
        forall|m: nat| 1 <= m < k ==> !any_at_boundary(#[trigger] state.march(dt, m).enemies),
    ensures
        1 <= n <= longest_march(),
        any_at_boundary(state.march(dt, n).enemies),
        forall|m: nat| 1 <= m < n ==> !any_at_boundary(#[trigger] state.march(dt, m).enemies),
        state.march(dt, n).enemy_direction == state.enemy_direction.flipped(),
        state.march(dt, (n - 1) as nat).enemy_direction == state.enemy_direction,
    decreases longest_march() - k,
{
    let here = state.march(dt, k);
    let before = state.march(dt, (k - 1) as nat);
    assert(here == before.move_enemy(dt));
    if any_at_boundary(here.enemies) {
        if k == 1 {
            assert(before == state);
        } else {
            assert forall|m: nat| 1 <= m <= (k - 1) as nat implies !any_at_boundary(
                #[trigger] state.march(dt, m).enemies,
            ) by {}
            lemma_march_inside(state, dt, (k - 1) as nat);
        }
        lemma_formation_step(before, dt);
        k
    } else {
        assert forall|m: nat| 1 <= m <= k implies !any_at_boundary(
            #[trigger] state.march(dt, m).enemies,
        ) by {
            if m == k {
            }
        }
        lemma_march_inside(state, dt, k);
        lemma_march_inside(state, dt, 1);
        assert(ENEMY_LIMIT == 4_500_000);
        assert(k < longest_march());
        lemma_march_search(state, dt, k + 1)
    }
}

/// A formation that moves does reach the boundary. With at least one enemy
/// and steps of more than no time, there is a first step `n` after which an
/// enemy stands at the boundary; up to it the formation has kept its
/// direction, and with it the direction turns.
pub proof fn lemma_formation_reaches_boundary(state: GameState, dt: int) -> (n: nat)
    requires
        state.enemies.len() > 0,
        dt > 0,
    ensures
        1 <= n <= longest_march(),
        any_at_boundary(state.march(dt, n).enemies),
        forall|m: nat| 1 <= m < n ==> !any_at_boundary(#[trigger] state.march(dt, m).enemies),
        state.march(dt, (n - 1) as nat).enemy_direction == state.enemy_direction,
        state.march(dt, n).enemy_direction == state.enemy_direction.flipped(),
{
    lemma_march_search(state, dt, 1)
}

/// Computes [`player_direction`].
pub fn player_direction_exec(left: bool, right: bool) -> (d: i64)
    ensures
        d == player_direction(left, right),
{
    if left {
        1
    } else if right {
        -1
    } else {
        0
    }
}

/// Computes [`player_step`].
pub fn player_step_exec(x: i64, left: bool, right: bool, dt: u64) -> (r: i64)
    ensures
        r == player_step(x as int, left, right, dt as int),
        -PLAYER_LIMIT <= r <= PLAYER_LIMIT,
{
    let d: i64 = player_direction_exec(left, right);
    let speed: i128 = PLAYER_SPEED as i128;
    assert(speed == 3);
    let step: i128 = speed * (dt as i128);
    let delta: i128 = if d > 0 {
        step
    } else if d < 0 {
        -step
    } else {
        0
    };
    assert(delta == PLAYER_SPEED * dt * player_direction(left, right)) by (nonlinear_arith)
        requires
            step == PLAYER_SPEED * dt,
            d > 0 ==> delta == step,
            d < 0 ==> delta == -step,
            d == 0 ==> delta == 0,
            d == player_direction(left, right),
            -1 <= d <= 1,
    ;
    let target: i128 = x as i128 + delta;
    if target < -PLAYER_LIMIT as i128 {
        -PLAYER_LIMIT
    } else if target > PLAYER_LIMIT as i128 {
        PLAYER_LIMIT
    } else {
        target as i64
    }
}

/// Computes [`enemy_step`].
pub fn enemy_step_exec(x: i64, direction: Direction, dt: u64) -> (r: i64)
    ensures
        r == enemy_step(x as int, direction, dt as int),
{
    let speed: i128 = ENEMY_SPEED as i128;
    assert(speed == 3);
    let step: i128 = speed * (dt as i128);
    let delta: i128 = match direction {
        Direction::Positive => step,
        Direction::Negative => -step,
    };
    assert(delta == ENEMY_SPEED * dt * direction.sign()) by (nonlinear_arith)
        requires
            step == ENEMY_SPEED * dt,
            delta == step * direction.sign(),
    ;
    saturate_exec(x as i128 + delta)
}

/// Computes [`at_boundary`].
pub fn at_boundary_exec(x: i64) -> (r: bool)
    ensures
        r == at_boundary(x as int),
{
    x >= ENEMY_LIMIT || x <= -ENEMY_LIMIT
}

impl Game {
    /// Moves the player for `dt` microseconds with the given keys held and
    /// holds it within the playfield. Where both keys are held, left wins.
    /// Without a player nothing happens.
    pub fn move_player(&mut self, left: bool, right: bool, dt: u64)
        requires
            old(self).wf(),
        ensures
            final(self).wf(),
            final(self)@ == old(self)@.move_player(left, right, dt as int),
            final(self)@.player matches Some(p) ==> -PLAYER_LIMIT <= p.position.x <= PLAYER_LIMIT,
    {
        match self.player {
            Some(p) => {
                let x: i64 = player_step_exec(p.position.x, left, right, dt);
                self.player = Some(Player { position: Position { x, z: p.position.z }, health: p.health });
            },
            None => {},
        }
        proof {
            assert(self@ =~= old(self)@.move_player(left, right, dt as int));
        }
    }

    /// Moves every enemy for `dt` microseconds in the formation's
    /// direction, then turns the direction around if any enemy has reached
    /// the boundary. The turn is made once, however many enemies have
    /// reached it, and shows in the movement of the next call.
    pub fn move_enemy(&mut self, dt: u64)
        requires
            old(self).wf(),
        ensures
            final(self).wf(),
            final(self)@ == old(self)@.move_enemy(dt as int),
            final(self)@.enemies.len() == old(self)@.enemies.len(),
            final(self)@.enemy_direction == if any_at_boundary(final(self)@.enemies) {
                old(self)@.enemy_direction.flipped()
            } else {
                old(self)@.enemy_direction
            },
    {
        let ghost before = self@;
        let direction: Direction = self.enemy_direction;
        let ghost target = before.enemies.map_values(|e: Enemy| moved_enemy(e, direction, dt as int));
        let n: usize = self.enemies.len();
        let mut moved: Vec<Enemy> = Vec::new();
        let mut flip_dir: bool = false;
        let mut i: usize = 0;
        while i < n
            invariant
                i <= n,
                n == before.enemies.len(),
                self@ == before,
                direction == before.enemy_direction,
                target == before.enemies.map_values(|e: Enemy| moved_enemy(e, direction, dt as int)),
                moved@ == target.take(i as int),
                flip_dir == any_at_boundary(moved@),
            decreases n - i,
        {
            let e: Enemy = self.enemies[i];
            let x: i64 = enemy_step_exec(e.position.x, direction, dt);
            let ghost earlier = moved@;
            moved.push(Enemy { id: e.id, position: Position { x, z: e.position.z } });
            proof {
                assert(moved@ =~= target.take(i + 1));
                if any_at_boundary(earlier) {
                    let w = choose|w: int|
                        0 <= w < earlier.len() && at_boundary((#[trigger] earlier[w]).position.x as int);
                    assert(moved@[w] == earlier[w]);
                }
                if any_at_boundary(moved@) && !at_boundary(x as int) {
                    let w = choose|w: int|
                        0 <= w < moved@.len() && at_boundary((#[trigger] moved@[w]).position.x as int);
                    assert(earlier[w] == moved@[w]);
                }
                if at_boundary(x as int) {
                    assert(at_boundary(moved@[i as int].position.x as int));
                }
            }
            if at_boundary_exec(x) {
                flip_dir = true;
            }
            i += 1;
        }
        proof {
            assert(target.take(n as int) =~= target);
        }
        self.enemies = moved;
        if flip_dir {
            self.enemy_direction = direction.flip();
        }
        proof {
            assert(self@ =~= before.move_enemy(dt as int));
            assert(self@.wf()) by {
                assert forall|i: int| 0 <= i < target.len() implies (#[trigger] target[i]).id
                    == before.enemies[i].id by {}
            }
        }
    }
}

} // verus!
