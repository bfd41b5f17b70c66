//! A system for trying the controls out: the axes move the player
//! directly, and the shoot button is answered.

use vstd::prelude::*;
use crate::components::player::SHOT_REPORT;
use crate::components::Player;
use crate::resources::Input;

verus! {

/// Moves the player by the bare axis values.
pub struct TestSystem;

impl TestSystem {
    /// One tick: the player moves up by the vertical axis value and right
    /// by the horizontal one, each taken as length sub-units, and the shoot
    /// button fires. Hands back what the shot reports, for the caller to
    /// print.
    pub fn run(&self, player: &mut Option<Player>, input: &Input) -> (report: Option<&'static str>)
        ensures
            *final(player) == match *old(player) {
                Some(p) => Some(
                    Player {
                        position: p.position.moved_by(input.horizontal as int, input.vertical as int),
                        ..p
                    },
                ),
                None => None,
            },
            report is Some == (input.shoot && *old(player) is Some),
            report matches Some(line) ==> line@ == SHOT_REPORT@,
    {
        match player {
            Some(p) => {
                p.position = p.position.translate(input.horizontal, input.vertical);
                if input.shoot {
                    Some(p.shoot())
                } else {
                    None
                }
            },
            None => None,
        }
    }
}

} // verus!
