//! The pursuer, and the rubber band that keeps it in the chase.

use vstd::prelude::*;
use crate::geometry::{Position, DISTANCE_LIMIT};

verus! {

/// The speed of an enemy held by a dog.
pub const ENEMY_STOPPED: u32 = 0;

/// The speed of an enemy wading through mud: 4.5 world units per tick.
pub const ENEMY_SLOW: u32 = 450_000;

/// The base speed of an unhindered enemy: 9 world units per tick.
pub const ENEMY_NORMAL: u32 = 900_000;

/// The speed of a boosted enemy: 18 world units per tick.
pub const ENEMY_FAST: u32 = 1_800_000;

/// The distance to the player, in length sub-units, up to which the enemy
/// keeps to its base speed: 200 world units.
pub const RUBBER_BAND_CUTOFF: u64 = 200_000;

/// Speed sub-units gained for each length sub-unit beyond the cutoff: 0.01
/// world units per tick for each world unit.
pub const RUBBER_BAND_COEFFICIENT: u64 = 1;

/// The pursuer. `speed` is its base speed, in speed sub-units.
#[derive(Clone, Copy, Debug, PartialEq, Eq, Structural)]
pub struct Enemy {
    pub position: Position,
    pub speed: u32,
}

/// The speed of a pursuer with base speed `base` at `distance` from its
/// quarry: the base speed, and beyond the cutoff a bonus that grows with the
/// excess.
pub open spec fn rubber_band_speed(base: nat, distance: nat) -> nat {
    if distance > RUBBER_BAND_CUTOFF {
        base + (distance - RUBBER_BAND_CUTOFF) as nat * RUBBER_BAND_COEFFICIENT as nat
    } else {
        base
    }
}

/// Beyond the cutoff the speed grows strictly with the distance, and at the
/// cutoff it is the base speed.
pub proof fn lemma_rubber_band_closes(base: nat, nearer: nat, farther: nat)
    requires
        RUBBER_BAND_CUTOFF <= nearer < farther,
    ensures
        rubber_band_speed(base, nearer) < rubber_band_speed(base, farther),
        rubber_band_speed(base, RUBBER_BAND_CUTOFF as nat) == base,
{
}

/// The rubber band never slows the pursuer below its base speed, and within
/// the cutoff it adds nothing.
pub proof fn lemma_rubber_band_floor(base: nat, distance: nat)
    ensures
        rubber_band_speed(base, distance) >= base,
        distance <= RUBBER_BAND_CUTOFF ==> rubber_band_speed(base, distance) == base,
{
}

impl Enemy {
    /// An enemy at the origin, at its normal base speed.
    pub fn new() -> (enemy: Enemy)
        ensures
            enemy == (Enemy { position: Position { x: 0, y: 0 }, speed: ENEMY_NORMAL }),
    {
        Enemy { position: Position { x: 0, y: 0 }, speed: ENEMY_NORMAL }
    }

    /// Slows the enemy down.
    pub fn slow_down(&mut self)
        ensures
            *final(self) == (Enemy { speed: ENEMY_SLOW, ..*old(self) }),
    {
        self.speed = ENEMY_SLOW;
    }

    /// Returns the enemy to its normal base speed.
    pub fn normal_speed(&mut self)
        ensures
            *final(self) == (Enemy { speed: ENEMY_NORMAL, ..*old(self) }),
    {
        self.speed = ENEMY_NORMAL;
    }

    /// Doubles the normal base speed.
    pub fn speed_up(&mut self)
        ensures
            *final(self) == (Enemy { speed: ENEMY_FAST, ..*old(self) }),
    {
        self.speed = ENEMY_FAST;
    }

    /// Stops the enemy.
    pub fn stop(&mut self)
        ensures
            *final(self) == (Enemy { speed: ENEMY_STOPPED, ..*old(self) }),
    {
        self.speed = ENEMY_STOPPED;
    }

    /// The speed at which the enemy closes in from `distance`.
    pub fn speed(&self, distance: u64) -> (effective: u64)
        requires
            distance <= DISTANCE_LIMIT,
        ensures
            effective == rubber_band_speed(self.speed as nat, distance as nat),
            effective >= self.speed,
    {
        if distance > RUBBER_BAND_CUTOFF {
            self.speed as u64 + (distance - RUBBER_BAND_CUTOFF) * RUBBER_BAND_COEFFICIENT
        } else {
            self.speed as u64
        }
    }
}

/// Where an enemy stands, if there is one.
pub open spec fn enemy_place(enemy: Option<Enemy>) -> Option<Position> {
    match enemy {
        Some(e) => Some(e.position),
        None => None,
    }
}

/// Where an enemy stands, if there is one.
pub fn place_of_enemy(enemy: &Option<Enemy>) -> (place: Option<Position>)
    ensures
        place == enemy_place(*enemy),
{
    match enemy {
        Some(e) => Some(e.position),
        None => None,
    }
}

impl Default for Enemy {
    fn default() -> (enemy: Enemy)
        ensures
            enemy == (Enemy { position: Position { x: 0, y: 0 }, speed: ENEMY_NORMAL }),
    {
        Enemy::new()
    }
}

} // verus!
