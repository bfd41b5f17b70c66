//! One tile of the scrolling background.

use vstd::prelude::*;
use crate::placement::Placed;
use crate::geometry::Position;

verus! {

/// A background tile, placed by its centre.
#[derive(Clone, Copy, Debug, PartialEq, Eq, Structural)]
pub struct Background {
    pub position: Position,
}

impl Background {
    /// A tile at the origin.
    pub fn new() -> (tile: Background)
        ensures
            tile.position == (Position { x: 0, y: 0 }),
    {
        Background { position: Position { x: 0, y: 0 } }
    }

    /// A tile in column zero at height `y`.
    pub fn at_height(y: i64) -> (tile: Background)
        ensures
            tile.position == (Position { x: 0, y }),
    {
        Background { position: Position { x: 0, y } }
    }
}

impl Placed for Background {
    open spec fn place(&self) -> Position {
        self.position
    }

    open spec fn fresh(position: Position) -> Background {
        Background { position }
    }

    fn position(&self) -> (p: Position) {
        self.position
    }

    fn spawn(position: Position) -> (item: Background) {
        Background { position }
    }
}

impl Default for Background {
    fn default() -> (tile: Background)
        ensures
            tile.position == (Position { x: 0, y: 0 }),
    {
        Background::new()
    }
}

} // verus!
