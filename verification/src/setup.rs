//! The opening scene: one player and a grid of enemies.

use vstd::prelude::*;
use crate::config::{
    COLUMN_GAP, ENEMY_COUNT, ENEMY_LIMIT, ENEMY_PER_ROW, PLAYER_START_DEPTH, PLAYGROUND_HEIGHT,
    PLAYGROUND_WIDTH, ROW_GAP, SCALE, STARTING_HEALTH,
};
use crate::entity::{Direction, Enemy, Player};
use crate::geometry::Position;
use crate::store::{Game, GameState, PlayerTest};

verus! {

/// The place of enemy number `i` in the opening formation. The enemies
/// stand in rows of [`ENEMY_PER_ROW`]. The first column stands one world
/// unit from the left side of the playfield, the first row one world unit
/// before its far boundary, and the rows come nearer from there.
pub open spec fn grid_position(i: int) -> Position {
    Position {
        x: (COLUMN_GAP * (i % (ENEMY_PER_ROW as int)) - PLAYGROUND_WIDTH / 2 + SCALE) as i64,
        z: (PLAYGROUND_HEIGHT - ROW_GAP * (i / (ENEMY_PER_ROW as int)) - SCALE) as i64,
    }
}

/// The player of the opening scene: on the centre line, behind the near
/// boundary, in full health.
pub open spec fn initial_player() -> Player {
    Player { position: Position { x: 0, z: PLAYER_START_DEPTH }, health: STARTING_HEALTH }
}

impl GameState {
    /// The opening scene: the player, [`ENEMY_COUNT`] enemies on the grid,
    /// numbered row by row, no bullets, and the formation about to move
    /// towards smaller `x`.
    pub open spec fn initial(player_test: PlayerTest) -> GameState {
        GameState {
            player: Some(initial_player()),
            enemies: Seq::new(
                ENEMY_COUNT as nat,
                |i: int| Enemy { id: i as u64, position: grid_position(i) },
            ),
            bullets: Seq::empty(),
            enemy_direction: Direction::Negative,
            player_test,
            next_id: ENEMY_COUNT as nat,
        }
    }
}

/// The grid in numbers: columns one world unit apart from four units left
/// of the centre line, rows one and a quarter units apart from one unit
/// before the far boundary. Every place lies within the playfield and
/// short of the places where the formation turns.
pub proof fn lemma_grid_position(i: int)
    requires
        0 <= i < ENEMY_COUNT,
    ensures
        grid_position(i).x == -4 * SCALE + (i % 5) * SCALE,
        grid_position(i).z == 9 * SCALE - (i / 5) * ROW_GAP,
        -ENEMY_LIMIT < grid_position(i).x < ENEMY_LIMIT,
        0 <= grid_position(i).z <= PLAYGROUND_HEIGHT,
{
    assert(ENEMY_PER_ROW == 5 && ENEMY_COUNT == 20 && SCALE == 1_000_000);
    assert(PLAYGROUND_WIDTH == 10_000_000 && PLAYGROUND_HEIGHT == 10_000_000);
    assert(COLUMN_GAP == 1_000_000 && ROW_GAP == 1_250_000);
    assert(0 <= i % 5 < 5);
    assert(0 <= i / 5 < 4);
}

/// No two enemies of the opening formation stand in one place.
pub proof fn lemma_grid_places_differ(i: int, j: int)
    requires
        0 <= i < j < ENEMY_COUNT,
    ensures
        grid_position(i) != grid_position(j),
{
    lemma_grid_position(i);
    lemma_grid_position(j);
    if i % 5 == j % 5 {
        assert(i / 5 != j / 5);
    }
}

/// The opening scene is well-formed.
pub proof fn lemma_initial_wf(player_test: PlayerTest)
    ensures
        GameState::initial(player_test).wf(),
{
}

/// Computes [`grid_position`].
pub fn enemy_grid_position(i: u64) -> (p: Position)
    requires
        i < ENEMY_COUNT,
    ensures
        p == grid_position(i as int),
{
    proof {
        lemma_grid_position(i as int);
    }
    let per_row: u64 = ENEMY_PER_ROW;
    assert(per_row == 5 && ENEMY_COUNT == 20);
    let column: i64 = (i % per_row) as i64;
    let row: i64 = (i / per_row) as i64;
    let half_width: i64 = PLAYGROUND_WIDTH / 2;
    let scale: i64 = SCALE;
    let height: i64 = PLAYGROUND_HEIGHT;
    let column_gap: i64 = COLUMN_GAP;
    let row_gap: i64 = ROW_GAP;
    assert(half_width == 5_000_000 && scale == 1_000_000 && height == 10_000_000);
    assert(column_gap == 1_000_000 && row_gap == 1_250_000);
    assert(0 <= column < 5 && 0 <= row < 4);
    Position { x: column_gap * column - half_width + scale, z: height - row_gap * row - scale }
}

impl Game {
    /// The store of the opening scene.
    pub fn setup(player_test: PlayerTest) -> (g: Game)
        ensures
            g.wf(),
            g@ == GameState::initial(player_test),
    {
        let mut enemies: Vec<Enemy> = Vec::new();
        let count: u64 = ENEMY_COUNT;
        let mut i: u64 = 0;
        while i < count
            invariant
                i <= count,
                count == ENEMY_COUNT,
                enemies@.len() == i,
                forall|k: int|
                    0 <= k < i ==> #[trigger] enemies@[k] == (Enemy {
                        id: k as u64,
                        position: grid_position(k),
                    }),
            decreases count - i,
        {
            enemies.push(Enemy { id: i, position: enemy_grid_position(i) });
            i += 1;
        }
        let g = Game {
            player: Some(
                Player { position: Position { x: 0, z: PLAYER_START_DEPTH }, health: STARTING_HEALTH },
            ),
            enemies,
            bullets: Vec::new(),
            enemy_direction: Direction::Negative,
            player_test,
            next_id: count,
        };
        proof {
            assert(g@ =~= GameState::initial(player_test));
            lemma_initial_wf(player_test);
        }
        g
    }
}

} // verus!
