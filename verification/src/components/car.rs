//! A parked car, which blocks the way.

use vstd::prelude::*;
use crate::placement::Placed;
use crate::geometry::{box_contains, is_in_box, Position};

verus! {

/// A parked car: a box around `position` with half-extents `width` and
/// `height`, and what it touched when it was last looked at.
#[derive(Clone, Copy, Debug, PartialEq, Eq, Structural)]
pub struct Car {
    pub position: Position,
    pub is_player_touching: bool,
    pub is_enemy_touching: bool,
    pub height: u32,
    pub width: u32,
}

impl Car {
    /// A car at the origin, 210 world units to each side and 140 up and
    /// down, touching nobody.
    pub fn new() -> (car: Car)
        ensures
            car == (Car {
                position: Position { x: 0, y: 0 },
                is_player_touching: false,
                is_enemy_touching: false,
                height: 140_000,
                width: 210_000,
            }),
    {
        Car {
            position: Position { x: 0, y: 0 },
            is_player_touching: false,
            is_enemy_touching: false,
            height: 140_000,
            width: 210_000,
        }
    }

    /// Shrinks the car's box to its centre, so that nothing is blocked by it.
    pub fn deactivate_hitbox(&mut self)
        ensures
            *final(self) == (Car { height: 0, width: 0, ..*old(self) }),
    {
        self.height = 0;
        self.width = 0;
    }

    /// Whether `point` lies in the car's box, its border included.
    pub open spec fn covers(self, point: Position) -> bool {
        box_contains(self.position, self.width as nat, self.height as nat, point)
    }

    /// Whether `point` lies in the car's box, its border included.
    pub fn is_covering(&self, point: Position) -> (r: bool)
        ensures
            r == self.covers(point),
    {
        is_in_box(self.position, self.width, self.height, point)
    }

    /// The same car after a fresh look at where the player and the enemy
    /// stand: it touches whoever is there and inside its box, whatever it
    /// touched before.
    pub open spec fn seen(self, player: Option<Position>, enemy: Option<Position>) -> Car {
        Car {
            is_player_touching: player matches Some(p) && self.covers(p),
            is_enemy_touching: enemy matches Some(e) && self.covers(e),
            ..self
        }
    }

    /// Takes a fresh look at where the player and the enemy stand.
    pub fn look(&mut self, player: Option<Position>, enemy: Option<Position>)
        ensures
            *final(self) == old(self).seen(player, enemy),
    {
        self.is_player_touching = match player {
            Some(p) => self.is_covering(p),
            None => false,
        };
        self.is_enemy_touching = match enemy {
            Some(e) => self.is_covering(e),
            None => false,
        };
    }
}

impl Placed for Car {
    open spec fn place(&self) -> Position {
        self.position
    }

    open spec fn fresh(position: Position) -> Car {
        Car {
            position,
            is_player_touching: false,
            is_enemy_touching: false,
            height: 140_000,
            width: 210_000,
        }
    }

    fn position(&self) -> (p: Position) {
        self.position
    }

    fn spawn(position: Position) -> (item: Car) {
        Car {
            position,
            is_player_touching: false,
            is_enemy_touching: false,
            height: 140_000,
            width: 210_000,
        }
    }
}

impl Default for Car {
    fn default() -> (car: Car)
        ensures
            car == (Car {
                position: Position { x: 0, y: 0 },
                is_player_touching: false,
                is_enemy_touching: false,
                height: 140_000,
                width: 210_000,
            }),
    {
        Car::new()
    }
}

} // verus!
