//! The endless background: tiles are laid ahead of the player and behind,
//! and taken up again once the player has left them far behind.

use vstd::prelude::*;
use crate::components::{Background, Player};
use crate::geometry::Position;
use crate::placement::{
    bottom_edge, bottom_needed, nearby, needed_bottom, needed_top, retain_nearby, top_edge,
    top_needed, BACKGROUND_HEIGHT,
};
use crate::resources::Paused;

verus! {

/// Keeps the player on tiled ground.
pub struct BackgroundRepeatSystem;

/// The tile that is due above `tiles` for a player at height `y`.
pub open spec fn tile_above(tiles: Seq<Background>, y: int) -> Background {
    Background { position: Position { x: 0, y: (top_edge(tiles, y) + BACKGROUND_HEIGHT) as i64 } }
}

/// The tile that is due below `tiles` for a player at height `y`.
pub open spec fn tile_below(tiles: Seq<Background>, y: int) -> Background {
    Background {
        position: Position { x: 0, y: (bottom_edge(tiles, y) - BACKGROUND_HEIGHT) as i64 },
    }
}

/// `tiles`, and after them the tile above where one is due.
pub open spec fn with_top(tiles: Seq<Background>, y: int) -> Seq<Background> {
    if top_needed(tiles, y) {
        tiles.push(tile_above(tiles, y))
    } else {
        tiles
    }
}

/// `tiles`, and before them the tile below where one is due.
pub open spec fn with_bottom(tiles: Seq<Background>, y: int) -> Seq<Background> {
    if bottom_needed(tiles, y) {
        tiles.insert(0, tile_below(tiles, y))
    } else {
        tiles
    }
}

/// The tiles after a tick that began with `tiles`: unchanged while the game
/// is paused; none without a player; else those near the player, with one
/// more above and one more below where they are due.
pub open spec fn tiles_after(paused: Paused, player: Option<Player>, tiles: Seq<Background>) -> Seq<
    Background,
> {
    match (paused, player) {
        (Paused::Paused, _) => tiles,
        (Paused::Unpaused, None) => Seq::empty(),
        (Paused::Unpaused, Some(p)) => with_bottom(
            with_top(nearby(tiles, p.position), p.position.y as int),
            p.position.y as int,
        ),
    }
}

impl BackgroundRepeatSystem {
    /// One tick of the background.
    pub fn run(&self, paused: Paused, player: &Option<Player>, backgrounds: &mut Vec<Background>)
        requires
            player matches Some(p) ==> p.position.in_world(),
        ensures
            final(backgrounds)@ == tiles_after(paused, *player, old(backgrounds)@),
    {
        if paused == Paused::Paused {
            return ;
        }
        match player {
            Some(p) => {
                self.clear_distant_backgrounds(backgrounds, &p.position);
                self.place_needed_top_backgrounds(backgrounds, &p.position);
                self.place_needed_bottom_backgrounds(backgrounds, &p.position);
            },
            None => {
                backgrounds.clear();
            },
        }
    }

    /// Takes up the tiles that are more than four tile heights from the
    /// player, so that only a few are ever laid.
    fn clear_distant_backgrounds(&self, backgrounds: &mut Vec<Background>, player_position: &Position)
        ensures
            final(backgrounds)@ == nearby(old(backgrounds)@, *player_position),
    {
        retain_nearby(backgrounds, *player_position);
    }

    /// Lays a tile above the others if the player has come close to their
    /// top.
    fn place_needed_top_backgrounds(&self, backgrounds: &mut Vec<Background>, player_position: &Position)
        requires
            player_position.in_world(),
        ensures
            final(backgrounds)@ == with_top(old(backgrounds)@, player_position.y as int),
    {
        match needed_top(backgrounds, player_position.y) {
            Some(max_height) => {
                backgrounds.push(Background::at_height(max_height + BACKGROUND_HEIGHT));
            },
            None => {},
        }
    }

    /// Lays a tile below the others if the player has come close to their
    /// bottom.
    fn place_needed_bottom_backgrounds(
        &self,
        backgrounds: &mut Vec<Background>,
        player_position: &Position,
    )
        requires
            player_position.in_world(),
        ensures
            final(backgrounds)@ == with_bottom(old(backgrounds)@, player_position.y as int),
    {
        match needed_bottom(backgrounds, player_position.y) {
            Some(min_height) => {
                backgrounds.insert(0, Background::at_height(min_height - BACKGROUND_HEIGHT));
            },
            None => {},
        }
    }
}

} // verus!
