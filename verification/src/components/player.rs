//! The player's avatar.

use vstd::prelude::*;
use crate::geometry::Position;

verus! {

/// The speed of a player held by a dog.
pub const PLAYER_STOPPED: u32 = 0;

/// The speed of a player wading through mud: 5 world units per tick.
pub const PLAYER_SLOW: u32 = 500_000;

/// The speed of an unhindered player: 10 world units per tick.
pub const PLAYER_NORMAL: u32 = 1_000_000;

/// The speed of a boosted player: 20 world units per tick.
pub const PLAYER_FAST: u32 = 2_000_000;

/// The line a shot is announced with.
pub const SHOT_REPORT: &'static str = "PEW!";

/// The avatar that flees. `speed` is in speed sub-units.
#[derive(Clone, Copy, Debug, PartialEq, Eq, Structural)]
pub struct Player {
    pub position: Position,
    pub speed: u32,
    pub is_in_car: bool,
}

impl Player {
    /// A player at the origin, at normal speed, clear of any car.
    pub fn new() -> (player: Player)
        ensures
            player == (Player {
                position: Position { x: 0, y: 0 },
                speed: PLAYER_NORMAL,
                is_in_car: false,
            }),
    {
        Player { position: Position { x: 0, y: 0 }, speed: PLAYER_NORMAL, is_in_car: false }
    }

    /// The speed is one of the four tiers.
    pub open spec fn has_tier_speed(self) -> bool {
        ||| self.speed == PLAYER_STOPPED
        ||| self.speed == PLAYER_SLOW
        ||| self.speed == PLAYER_NORMAL
        ||| self.speed == PLAYER_FAST
    }

    /// What a shot reports; the caller prints it.
    pub fn shoot(&self) -> (report: &'static str)
        ensures
            report@ == SHOT_REPORT@,
    {
        SHOT_REPORT
    }

    /// Slows the player down.
    pub fn slow_down(&mut self)
        ensures
            *final(self) == (Player { speed: PLAYER_SLOW, ..*old(self) }),
    {
        self.speed = PLAYER_SLOW;
    }

    /// Returns the player to normal speed.
    pub fn normal_speed(&mut self)
        ensures
            *final(self) == (Player { speed: PLAYER_NORMAL, ..*old(self) }),
    {
        self.speed = PLAYER_NORMAL;
    }

    /// Doubles the normal speed.
    pub fn speed_up(&mut self)
        ensures
            *final(self) == (Player { speed: PLAYER_FAST, ..*old(self) }),
    {
        self.speed = PLAYER_FAST;
    }

    /// Stops the player.
    pub fn stop(&mut self)
        ensures
            *final(self) == (Player { speed: PLAYER_STOPPED, ..*old(self) }),
    {
        self.speed = PLAYER_STOPPED;
    }
}

/// Where a player stands, if there is one.
pub open spec fn player_place(player: Option<Player>) -> Option<Position> {
    match player {
        Some(p) => Some(p.position),
        None => None,
    }
}

/// Where a player stands, if there is one.
pub fn place_of_player(player: &Option<Player>) -> (place: Option<Position>)
    ensures
        place == player_place(*player),
{
    match player {
        Some(p) => Some(p.position),
        None => None,
    }
}

impl Default for Player {
    fn default() -> (player: Player)
        ensures
            player == (Player {
                position: Position { x: 0, y: 0 },
                speed: PLAYER_NORMAL,
                is_in_car: false,
            }),
    {
        Player::new()
    }
}

} // verus!
