//! What the gameplay screen decides: how a run begins and what ends it.
//! The screens themselves belong to the engine.

use vstd::prelude::*;
use crate::resources::{HighScore, QuitToMenu};

verus! {

/// What the gameplay screen asks of the stack of screens.
#[derive(Clone, Copy, Debug, PartialEq, Eq, Structural)]
pub enum Transition {
    /// Carry on.
    Stay,
    /// Leave the gameplay screen for the one below it.
    Pop,
    /// Lay the pause menu over the game.
    Pause,
    /// Replace the game by the game-over screen.
    GameOver,
    /// Leave the program.
    Quit,
}

/// What follows from an event on the gameplay screen: a request to close
/// the window quits, the escape key pauses, and with neither a raised
/// quit-to-menu flag is lowered again and the screen left.
pub open spec fn transition_on_event(close_requested: bool, escape_down: bool, quit_to_menu: QuitToMenu) -> (
    Transition,
    QuitToMenu,
) {
    if close_requested {
        (Transition::Quit, quit_to_menu)
    } else if escape_down {
        (Transition::Pause, quit_to_menu)
    } else if quit_to_menu.0 {
        (Transition::Pop, QuitToMenu(false))
    } else {
        (Transition::Stay, quit_to_menu)
    }
}

/// Begins a run: its score is zero whatever the last run came to, the high
/// score stays, and nobody has asked for the menu.
pub fn start_run(high_score: &mut HighScore, quit_to_menu: &mut QuitToMenu)
    ensures
        final(high_score).current() == 0,
        final(high_score).best() == old(high_score).best(),
        *final(quit_to_menu) == QuitToMenu(false),
{
    *quit_to_menu = QuitToMenu(false);
    high_score.reset();
}

/// What follows from a tick on the gameplay screen: the game is over as
/// soon as a catch has been announced.
pub fn update(catches_pending: usize) -> (next: Transition)
    ensures
        next == if catches_pending > 0 {
            Transition::GameOver
        } else {
            Transition::Stay
        },
{
    if catches_pending > 0 {
        Transition::GameOver
    } else {
        Transition::Stay
    }
}

/// What follows from an event on the gameplay screen.
pub fn handle_event(close_requested: bool, escape_down: bool, quit_to_menu: &mut QuitToMenu) -> (next:
    Transition)
    ensures
        (next, *final(quit_to_menu)) == transition_on_event(
            close_requested,
            escape_down,
            *old(quit_to_menu),
        ),
{
    if close_requested {
        return Transition::Quit;
    }
    if escape_down {
        return Transition::Pause;
    }
    if quit_to_menu.0 {
        *quit_to_menu = QuitToMenu(false);
        return Transition::Pop;
    }
    Transition::Stay
}

} // verus!
