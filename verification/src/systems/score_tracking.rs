//! The score: how far up the player has come.

use vstd::prelude::*;
use crate::components::Player;
use crate::resources::{centimetres, HighScore, Paused};

verus! {

/// Keeps the score.
#[derive(Default)]
pub struct ScoreTrackingSystem;

/// The height that counts for the score: the player's, or zero without a
/// player.
pub open spec fn height_reached(player: Option<Player>) -> int {
    match player {
        Some(p) => p.position.y as int,
        None => 0,
    }
}

impl ScoreTrackingSystem {
    /// One tick: the score of the run grows to the player's height, the
    /// high score grows with it, and neither ever shrinks; while the game
    /// is paused both stay as they are. Hands back the score of the run,
    /// in centimetres, for display.
    pub fn run(&self, paused: Paused, player: &Option<Player>, high_score: &mut HighScore) -> (score:
        i64)
        ensures
            paused == Paused::Paused ==> final(high_score).current() == old(high_score).current()
                && final(high_score).best() == old(high_score).best(),
            paused == Paused::Unpaused ==> final(high_score).current() == vstd::math::max(
                old(high_score).current(),
                height_reached(*player),
            ),
            paused == Paused::Unpaused ==> final(high_score).best() == vstd::math::max(
                old(high_score).best(),
                final(high_score).current(),
            ),
            final(high_score).best() >= old(high_score).best(),
            final(high_score).current() >= old(high_score).current(),
            score == centimetres(final(high_score).current()),
    {
        if paused == Paused::Paused {
            return high_score.get_score();
        }
        let height: i64 = match player {
            Some(p) => p.position.y,
            None => 0,
        };
        high_score.max(height);
        high_score.get_score()
    }
}

} // verus!
