//! Component and resource data of the game.
//!
//! All coordinates are fixed-point sub-units, see [`crate::fixed`].

use crate::fixed::UNIT;
use vstd::prelude::*;

verus! {

/// Placement of a visible entity: its position and the direction its "up"
/// axis points along. The heading is a vector of length `UNIT` to within
/// the rounding: a ship that turns gets a heading that is no longer than
/// `UNIT`, and that with one sub-unit more on each axis would be longer
/// than `UNIT - 1`. An entity that has never turned faces `(0, UNIT)`.
#[derive(Clone, Copy, Debug, PartialEq, Eq, Structural)]
pub struct Transform {
    pub x: i32,
    pub y: i32,
    pub heading_x: i32,
    pub heading_y: i32,
}

impl Transform {
    /// The transform at the origin that faces up.
    pub open spec fn origin() -> Transform {
        Transform { x: 0, y: 0, heading_x: 0, heading_y: UNIT }
    }

    /// The transform at `(x, y)` that faces up.
    pub open spec fn at(x: i32, y: i32) -> Transform {
        Transform { x, y, heading_x: 0, heading_y: UNIT }
    }

    /// The transform at the origin that faces up.
    pub fn identity() -> (t: Transform)
        ensures
            t == Transform::origin(),
    {
        Transform { x: 0, y: 0, heading_x: 0, heading_y: UNIT }
    }

    /// The transform at `(x, y)` that faces up.
    pub fn from_translation(x: i32, y: i32) -> (t: Transform)
        ensures
            t == Transform::at(x, y),
    {
        Transform { x, y, heading_x: 0, heading_y: UNIT }
    }
}

/// The player's ship: the point it is steering toward.
#[derive(Clone, Copy, Debug, PartialEq, Eq, Structural)]
pub struct PlayerShip {
    pub target_x: i32,
    pub target_y: i32,
}

impl Default for PlayerShip {
    fn default() -> (p: PlayerShip)
        ensures
            p == (PlayerShip { target_x: 0, target_y: 0 }),
    {
        PlayerShip { target_x: 0, target_y: 0 }
    }
}

/// Marks an entity as a projectile.
#[derive(Clone, Copy, Debug, PartialEq, Eq, Structural)]
pub struct Bullet;

/// The gun's cooldown: ticks left until it is ready, `0` when ready.
#[derive(Clone, Copy, Debug, PartialEq, Eq, Structural)]
pub struct GunState {
    pub frames_to_fire: i32,
}

impl Default for GunState {
    fn default() -> (g: GunState)
        ensures
            g == (GunState { frames_to_fire: 0 }),
    {
        GunState { frames_to_fire: 0 }
    }
}

/// Pacing of enemy spawns: ticks left until the next one, and the value
/// the countdown restarts from.
#[derive(Clone, Copy, Debug, PartialEq, Eq, Structural)]
pub struct GlobalEnemyState {
    pub frames_to_next_enemy: i32,
    pub spawn_interval: i32,
}

impl Default for GlobalEnemyState {
    fn default() -> (s: GlobalEnemyState)
        ensures
            s == (GlobalEnemyState { frames_to_next_enemy: 20, spawn_interval: 90 }),
    {
        GlobalEnemyState { frames_to_next_enemy: 20, spawn_interval: 90 }
    }
}

/// An enemy. While `frames_to_appear` is positive it takes part in no
/// collision; it moves all the same.
#[derive(Clone, Copy, Debug, PartialEq, Eq, Structural)]
pub struct Enemy {
    pub frames_to_appear: i32,
}

impl Enemy {
    /// Whether the grace period is over.
    pub open spec fn active(self) -> bool {
        self.frames_to_appear <= 0
    }

    /// Whether the grace period is over.
    pub fn is_active(&self) -> (b: bool)
        ensures
            b == self.active(),
    {
        self.frames_to_appear <= 0
    }
}

impl Default for Enemy {
    fn default() -> (e: Enemy)
        ensures
            e == (Enemy { frames_to_appear: 10 }),
    {
        Enemy { frames_to_appear: 10 }
    }
}

/// A place on a line, for entities that live in one dimension.
#[derive(Clone, Copy, Debug, PartialEq, Eq, Structural)]
pub struct Position(pub i32);

/// Marks an entity as a block: it slides along the line.
#[derive(Clone, Copy, Debug, PartialEq, Eq, Structural)]
pub struct Block;

/// Marks an entity as a wall: it stays where it is.
#[derive(Clone, Copy, Debug, PartialEq, Eq, Structural)]
pub struct Wall;

} // verus!
