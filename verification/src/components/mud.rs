//! A patch of mud, which slows whoever wades through it.

use vstd::prelude::*;
use crate::placement::Placed;
use crate::geometry::{box_contains, is_in_box, Position};

verus! {

/// A mud patch: a box around `position` with half-extents `width` and
/// `height`, and what it touched when it was last looked at.
#[derive(Clone, Copy, Debug, PartialEq, Eq, Structural)]
pub struct Mud {
    pub position: Position,
    pub is_player_touching: bool,
    pub is_enemy_touching: bool,
    pub height: u32,
    pub width: u32,
}

impl Mud {
    /// A patch at the origin, 120 world units to each side and 80 up and
    /// down, touching nobody.
    pub fn new() -> (mud: Mud)
        ensures
            mud == (Mud {
                position: Position { x: 0, y: 0 },
                is_player_touching: false,
                is_enemy_touching: false,
                height: 80_000,
                width: 120_000,
            }),
    {
        Mud {
            position: Position { x: 0, y: 0 },
            is_player_touching: false,
            is_enemy_touching: false,
            height: 80_000,
            width: 120_000,
        }
    }

    /// Whether `point` lies in the patch, its border included.
    pub open spec fn covers(self, point: Position) -> bool {
        box_contains(self.position, self.width as nat, self.height as nat, point)
    }

    /// Whether `point` lies in the patch, its border included.
    pub fn is_covering(&self, point: Position) -> (r: bool)
        ensures
            r == self.covers(point),
    {
        is_in_box(self.position, self.width, self.height, point)
    }

    /// The same mud after a fresh look at where the player and the enemy
    /// stand: it touches whoever is there and inside its box, whatever it
    /// touched before.
    pub open spec fn seen(self, player: Option<Position>, enemy: Option<Position>) -> Mud {
        Mud {
            is_player_touching: player matches Some(p) && self.covers(p),
            is_enemy_touching: enemy matches Some(e) && self.covers(e),
            ..self
        }
    }

    /// Takes a fresh look at where the player and the enemy stand.
    pub fn look(&mut self, player: Option<Position>, enemy: Option<Position>)
        ensures
            *final(self) == old(self).seen(player, enemy),
    {
        self.is_player_touching = match player {
            Some(p) => self.is_covering(p),
            None => false,
        };
        self.is_enemy_touching = match enemy {
            Some(e) => self.is_covering(e),
            None => false,
        };
    }
}

impl Placed for Mud {
    open spec fn place(&self) -> Position {
        self.position
    }

    open spec fn fresh(position: Position) -> Mud {
        Mud {
            position,
            is_player_touching: false,
            is_enemy_touching: false,
            height: 80_000,
            width: 120_000,
        }
    }

    fn position(&self) -> (p: Position) {
        self.position
    }

    fn spawn(position: Position) -> (item: Mud) {
        Mud {
            position,
            is_player_touching: false,
            is_enemy_touching: false,
            height: 80_000,
            width: 120_000,
        }
    }
}

impl Default for Mud {
    fn default() -> (mud: Mud)
        ensures
            mud == (Mud {
                position: Position { x: 0, y: 0 },
                is_player_touching: false,
                is_enemy_touching: false,
                height: 80_000,
                width: 120_000,
            }),
    {
        Mud::new()
    }
}

} // verus!
