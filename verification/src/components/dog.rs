//! A dog on patrol, which holds whoever it reaches.

use vstd::prelude::*;
use crate::placement::Placed;
use crate::geometry::{box_contains, clamp, clamp_to, is_in_box, Position};
use crate::units::{AREA_WIDTH, SPEED_PER_LENGTH};

verus! {

/// The way a patrolling dog faces.
#[derive(Clone, Copy, Debug, PartialEq, Eq, Structural)]
pub enum Heading {
    Left,
    Right,
}

/// A dog: a box around `position` with half-extents `width` and `height`,
/// what it touched when it was last looked at, and its patrol, at `speed`
/// speed sub-units towards `heading`.
#[derive(Clone, Copy, Debug, PartialEq, Eq, Structural)]
pub struct Dog {
    pub position: Position,
    pub is_player_touching: bool,
    pub is_enemy_touching: bool,
    pub height: u32,
    pub width: u32,
    pub speed: u32,
    pub heading: Heading,
}

impl Dog {
    /// A dog at the origin, 80 world units to each side, up and down,
    /// touching nobody, setting out to the left at 5 world units per tick.
    pub fn new() -> (dog: Dog)
        ensures
            dog == (Dog {
                position: Position { x: 0, y: 0 },
                is_player_touching: false,
                is_enemy_touching: false,
                height: 80_000,
                width: 80_000,
                speed: 500_000,
                heading: Heading::Left,
            }),
    {
        Dog {
            position: Position { x: 0, y: 0 },
            is_player_touching: false,
            is_enemy_touching: false,
            height: 80_000,
            width: 80_000,
            speed: 500_000,
            heading: Heading::Left,
        }
    }

    /// Whether `point` lies in the dog's box, its border included.
    pub open spec fn covers(self, point: Position) -> bool {
        box_contains(self.position, self.width as nat, self.height as nat, point)
    }

    /// Whether `point` lies in the dog's box, its border included.
    pub fn is_covering(&self, point: Position) -> (r: bool)
        ensures
            r == self.covers(point),
    {
        is_in_box(self.position, self.width, self.height, point)
    }

    /// The way the dog faces once it has noticed the edge of the play area:
    /// away from the edge it stands at, and as before anywhere else.
    pub open spec fn turned(self) -> Heading {
        if self.position.x <= -AREA_WIDTH {
            Heading::Right
        } else if self.position.x >= AREA_WIDTH {
            Heading::Left
        } else {
            self.heading
        }
    }

    /// How far the dog walks in one tick, in length sub-units.
    pub open spec fn stride(self) -> int {
        self.speed as int / SPEED_PER_LENGTH as int
    }

    /// The same dog one tick of patrol later: turned round at the edge of
    /// the play area, one stride along, and never outside the play area.
    pub open spec fn patrolled(self) -> Dog {
        let heading = self.turned();
        let x = match heading {
            Heading::Left => self.position.x - self.stride(),
            Heading::Right => self.position.x + self.stride(),
        };
        Dog {
            position: Position {
                x: clamp(x, -AREA_WIDTH as int, AREA_WIDTH as int) as i64,
                y: self.position.y,
            },
            heading,
            ..self
        }
    }

    /// Walks the patrol for one tick.
    pub fn patrol(&mut self)
        ensures
            *final(self) == old(self).patrolled(),
            -AREA_WIDTH <= final(self).position.x <= AREA_WIDTH,
    {
        if self.position.x >= AREA_WIDTH {
            self.heading = Heading::Left;
        }
        if self.position.x <= -AREA_WIDTH {
            self.heading = Heading::Right;
        }
        let stride: i128 = (self.speed as u64 / SPEED_PER_LENGTH) as i128;
        let x: i128 = match self.heading {
            Heading::Left => self.position.x as i128 - stride,
            Heading::Right => self.position.x as i128 + stride,
        };
        self.position.x = clamp_to(x, -AREA_WIDTH, AREA_WIDTH);
    }

    /// The same dog after a fresh look at where the player and the enemy
    /// stand: it touches whoever is there and inside its box, whatever it
    /// touched before.
    pub open spec fn seen(self, player: Option<Position>, enemy: Option<Position>) -> Dog {
        Dog {
            is_player_touching: player matches Some(p) && self.covers(p),
            is_enemy_touching: enemy matches Some(e) && self.covers(e),
            ..self
        }
    }

    /// Takes a fresh look at where the player and the enemy stand.
    pub fn look(&mut self, player: Option<Position>, enemy: Option<Position>)
        ensures
            *final(self) == old(self).seen(player, enemy),
    {
        self.is_player_touching = match player {
            Some(p) => self.is_covering(p),
            None => false,
        };
        self.is_enemy_touching = match enemy {
            Some(e) => self.is_covering(e),
            None => false,
        };
    }
}

impl Placed for Dog {
    open spec fn place(&self) -> Position {
        self.position
    }

    open spec fn fresh(position: Position) -> Dog {
        Dog {
            position,
            is_player_touching: false,
            is_enemy_touching: false,
            height: 80_000,
            width: 80_000,
            speed: 500_000,
            heading: Heading::Left,
        }
    }

    fn position(&self) -> (p: Position) {
        self.position
    }

    fn spawn(position: Position) -> (item: Dog) {
        Dog {
            position,
            is_player_touching: false,
            is_enemy_touching: false,
            height: 80_000,
            width: 80_000,
            speed: 500_000,
            heading: Heading::Left,
        }
    }
}

impl Default for Dog {
    fn default() -> (dog: Dog)
        ensures
            dog == (Dog {
                position: Position { x: 0, y: 0 },
                is_player_touching: false,
                is_enemy_touching: false,
                height: 80_000,
                width: 80_000,
                speed: 500_000,
                heading: Heading::Left,
            }),
    {
        Dog::new()
    }
}

} // verus!
