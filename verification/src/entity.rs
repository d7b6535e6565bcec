//! The three kinds of entity and the direction that the enemies share.

use vstd::prelude::*;
use crate::config::{BULLET_HALF_DEPTH, BULLET_HALF_WIDTH, ENEMY_HALF_SIZE, PLAYER_HALF_SIZE};
use crate::geometry::{Aabb2d, Position};

verus! {

/// The direction along the horizontal axis in which the whole formation of
/// enemies moves.
#[derive(Clone, Copy, Debug, PartialEq, Eq, Structural)]
pub enum Direction {
    /// Towards smaller `x`.
    Negative,
    /// Towards larger `x`.
    Positive,
}

impl Direction {
    /// `-1` or `+1`.
    pub open spec fn sign(self) -> int {
        match self {
            Direction::Negative => -1,
            Direction::Positive => 1,
        }
    }

    /// The opposite direction.
    pub open spec fn flipped(self) -> Direction {
        match self {
            Direction::Negative => Direction::Positive,
            Direction::Positive => Direction::Negative,
        }
    }

    /// Computes [`Direction::sign`].
    pub fn signum(self) -> (s: i64)
        ensures
            s == self.sign(),
    {
        match self {
            Direction::Negative => -1,
            Direction::Positive => 1,
        }
    }

    /// Computes [`Direction::flipped`].
    pub fn flip(self) -> (d: Direction)
        ensures
            d == self.flipped(),
            d != self,
            d.sign() == -self.sign(),
    {
        match self {
            Direction::Negative => Direction::Positive,
            Direction::Positive => Direction::Negative,
        }
    }
}

/// The avatar that the user steers.
#[derive(Clone, Copy, Debug, PartialEq, Eq, Structural)]
pub struct Player {
    pub position: Position,
    pub health: u32,
}

/// One member of the formation.
#[derive(Clone, Copy, Debug, PartialEq, Eq, Structural)]
pub struct Enemy {
    pub id: u64,
    pub position: Position,
}

/// A projectile. It has no velocity of its own: every bullet flies towards
/// larger `z` at the same speed.
#[derive(Clone, Copy, Debug, PartialEq, Eq, Structural)]
pub struct Bullet {
    pub id: u64,
    pub position: Position,
}

impl Player {
    /// The box that the player occupies.
    pub open spec fn bounding_box(self) -> Aabb2d {
        Aabb2d {
            center: self.position,
            half_width: PLAYER_HALF_SIZE,
            half_depth: PLAYER_HALF_SIZE,
        }
    }

    /// Computes [`Player::bounding_box`].
    pub fn aabb(&self) -> (b: Aabb2d)
        ensures
            b == self.bounding_box(),
    {
        Aabb2d::new(self.position, PLAYER_HALF_SIZE, PLAYER_HALF_SIZE)
    }
}

impl Enemy {
    /// The box that the enemy occupies.
    pub open spec fn bounding_box(self) -> Aabb2d {
        Aabb2d {
            center: self.position,
            half_width: ENEMY_HALF_SIZE,
            half_depth: ENEMY_HALF_SIZE,
        }
    }

    /// Computes [`Enemy::bounding_box`].
    pub fn aabb(&self) -> (b: Aabb2d)
        ensures
            b == self.bounding_box(),
    {
        Aabb2d::new(self.position, ENEMY_HALF_SIZE, ENEMY_HALF_SIZE)
    }
}

impl Bullet {
    /// The box that the bullet occupies.
    pub open spec fn bounding_box(self) -> Aabb2d {
        Aabb2d {
            center: self.position,
            half_width: BULLET_HALF_WIDTH,
            half_depth: BULLET_HALF_DEPTH,
        }
    }

    /// Computes [`Bullet::bounding_box`].
    pub fn aabb(&self) -> (b: Aabb2d)
        ensures
            b == self.bounding_box(),
    {
        Aabb2d::new(self.position, BULLET_HALF_WIDTH, BULLET_HALF_DEPTH)
    }
}

} // verus!
