//! Playfield dimensions, speeds and entity sizes.

use vstd::prelude::*;

verus! {

/// Coordinate units in one world unit.
pub const SCALE: i64 = 1_000_000;

/// Extent of the playfield along the horizontal axis.
pub const PLAYGROUND_WIDTH: i64 = 10_000_000;

/// Far boundary of the playfield along the depth axis.
pub const PLAYGROUND_HEIGHT: i64 = 10_000_000;

/// Player speed in world units per second.
pub const PLAYER_SPEED: i64 = 3;

/// Bullet speed in world units per second.
pub const BULLET_SPEED: i64 = 5;

/// Enemy speed in world units per second.
pub const ENEMY_SPEED: i64 = 3;

/// Number of enemies in the initial formation.
pub const ENEMY_COUNT: u64 = 20;

/// Number of enemies in one row of the initial formation.
pub const ENEMY_PER_ROW: u64 = 5;

/// Number of rows of the initial formation.
pub const ENEMY_ROWS: u64 = 4;

/// Distance between two columns of the initial formation.
pub const COLUMN_GAP: i64 = 1_000_000;

/// Distance between two rows of the initial formation.
pub const ROW_GAP: i64 = 1_250_000;

/// Health of a freshly placed player.
pub const STARTING_HEALTH: u32 = 3;

/// Distance that the player keeps from either side of the playfield.
pub const PLAYER_MARGIN: i64 = 500_000;

/// Largest horizontal distance of the player from the centre line.
pub const PLAYER_LIMIT: i64 = 4_500_000;

/// Distance from either side of the playfield at which the formation turns.
pub const ENEMY_MARGIN: i64 = 500_000;

/// Horizontal distance from the centre line at which the formation turns.
pub const ENEMY_LIMIT: i64 = 4_500_000;

/// Half of the player's bounding box along either axis.
pub const PLAYER_HALF_SIZE: u32 = 500_000;

/// Half of an enemy's bounding box along either axis.
pub const ENEMY_HALF_SIZE: u32 = 250_000;

/// Half of a bullet's bounding box along the horizontal axis.
pub const BULLET_HALF_WIDTH: u32 = 50_000;

/// Half of a bullet's bounding box along the depth axis.
pub const BULLET_HALF_DEPTH: u32 = 150_000;

/// Distance in front of the player at which a bullet appears.
pub const BULLET_OFFSET: i64 = 1_000_000;

/// Depth coordinate of the player in the initial scene.
pub const PLAYER_START_DEPTH: i64 = -1_500_000;

/// How the derived constants follow from the others: the limits are the
/// half width of the playfield less the margins, the formation fills its
/// rows, its columns divide half of the width evenly and its rows half of
/// the height.
pub proof fn lemma_derived_constants()
    ensures
        PLAYER_LIMIT == PLAYGROUND_WIDTH / 2 - PLAYER_MARGIN,
        ENEMY_LIMIT == PLAYGROUND_WIDTH / 2 - ENEMY_MARGIN,
        ENEMY_ROWS * ENEMY_PER_ROW == ENEMY_COUNT,
        COLUMN_GAP * ENEMY_PER_ROW == PLAYGROUND_WIDTH / 2,
        ROW_GAP * ENEMY_ROWS == PLAYGROUND_HEIGHT / 2,
{
}

} // verus!
