//! What the systems share besides the entities: the pause flag, the score,
//! the input of the tick and the marker of a lost game.

pub mod content;
pub mod controls;
pub mod prefabs;

use vstd::prelude::*;

pub use content::ContentError;
pub use controls::Controls;

verus! {

/// Length sub-units in one centimetre of score: a world unit counts as a
/// hundredth of a metre.
pub const LENGTH_PER_CENTIMETRE: i64 = 1_000;

/// Set by the pause menu to send the game back to the main menu.
#[derive(Clone, Copy, Debug, PartialEq, Eq, Structural)]
pub struct QuitToMenu(pub bool);

impl Default for QuitToMenu {
    fn default() -> (flag: QuitToMenu)
        ensures
            flag == QuitToMenu(false),
    {
        QuitToMenu(false)
    }
}

/// Whether the game stands still. While it does, no system changes anything.
#[derive(Clone, Copy, Debug, PartialEq, Eq, Structural)]
pub enum Paused {
    Paused,
    Unpaused,
}

impl Default for Paused {
    fn default() -> (paused: Paused)
        ensures
            paused == Paused::Unpaused,
    {
        Paused::Unpaused
    }
}

/// What the input device reports for one tick: the two axes, in
/// thousandths of their full deflection, and the legacy shoot button. The
/// player is steered by the direction of the axes alone.
#[derive(Clone, Copy, Debug, PartialEq, Eq, Structural)]
pub struct Input {
    pub horizontal: i64,
    pub vertical: i64,
    pub shoot: bool,
}

impl Input {
    /// An input device at rest.
    pub fn new() -> (input: Input)
        ensures
            input == (Input { horizontal: 0, vertical: 0, shoot: false }),
    {
        Input { horizontal: 0, vertical: 0, shoot: false }
    }
}

impl Default for Input {
    fn default() -> (input: Input)
        ensures
            input == (Input { horizontal: 0, vertical: 0, shoot: false }),
    {
        Input::new()
    }
}

/// Published when the enemy has caught the player.
#[derive(Clone, Copy, Debug, Default, PartialEq, Eq, Structural)]
pub struct CollisionEvent;

/// A distance in centimetres of score, rounded to the nearest; a half
/// counts up.
pub open spec fn centimetres(distance: int) -> int {
    (distance + LENGTH_PER_CENTIMETRE / 2) / LENGTH_PER_CENTIMETRE as int
}

/// A distance that is not negative, in centimetres of score, rounded to
/// the nearest.
pub fn to_centimetres(distance: i64) -> (score: i64)
    requires
        distance >= 0,
    ensures
        score == centimetres(distance as int),
        score >= 0,
{
    let whole: i64 = distance / LENGTH_PER_CENTIMETRE;
    if distance % LENGTH_PER_CENTIMETRE >= LENGTH_PER_CENTIMETRE / 2 {
        whole + 1
    } else {
        whole
    }
}

/// The farthest the player has come in this run, and in any run.
#[derive(Debug)]
pub struct HighScore {
    distance: i64,
    max_distance: i64,
}

impl HighScore {
    /// No run is behind its start, nor ahead of the best run.
    #[verifier::type_invariant]
    pub closed spec fn well_formed(self) -> bool {
        0 <= self.distance <= self.max_distance
    }

    /// The farthest the player has come in this run, in length sub-units.
    pub closed spec fn current(self) -> int {
        self.distance as int
    }

    /// The farthest the player has come in any run, in length sub-units.
    pub closed spec fn best(self) -> int {
        self.max_distance as int
    }

    /// The score before the first run.
    pub fn new() -> (score: HighScore)
        ensures
            score.current() == 0,
            score.best() == 0,
    {
        HighScore { distance: 0, max_distance: 0 }
    }

    /// What being well formed means for the two scores.
    pub proof fn lemma_ordered(self)
        requires
            self.well_formed(),
        ensures
            0 <= self.current() <= self.best(),
    {
    }

    /// Takes note of the player standing at `distance`: the run's score and
    /// the high score grow to it where they were less.
    pub fn max(&mut self, distance: i64)
        ensures
            final(self).current() == if distance > old(self).current() {
                distance as int
            } else {
                old(self).current()
            },
            final(self).best() == if final(self).current() > old(self).best() {
                final(self).current()
            } else {
                old(self).best()
            },
            final(self).best() >= old(self).best(),
            final(self).current() >= old(self).current(),
    {
        proof {
            use_type_invariant(&*self);
        }
        let current: i64 = if distance > self.distance {
            distance
        } else {
            self.distance
        };
        let best: i64 = if current > self.max_distance {
            current
        } else {
            self.max_distance
        };
        *self = HighScore { distance: current, max_distance: best };
    }

    /// How far the player has come in this run, in length sub-units.
    pub fn get_distance(&self) -> (distance: i64)
        ensures
            distance == self.current(),
            distance >= 0,
    {
        proof {
            use_type_invariant(self);
        }
        self.distance
    }

    /// How far the player has come in the best run, in length sub-units.
    pub fn get_max_distance(&self) -> (distance: i64)
        ensures
            distance == self.best(),
            distance >= 0,
    {
        proof {
            use_type_invariant(self);
        }
        self.max_distance
    }

    /// The score of this run in centimetres, rounded to the nearest, as it
    /// is shown with two places behind the point of the metres.
    pub fn get_score(&self) -> (score: i64)
        ensures
            score == centimetres(self.current()),
            score >= 0,
    {
        proof {
            use_type_invariant(self);
        }
        to_centimetres(self.distance)
    }

    /// The high score in centimetres, rounded to the nearest.
    pub fn get_high_score(&self) -> (score: i64)
        ensures
            score == centimetres(self.best()),
            score >= 0,
    {
        proof {
            use_type_invariant(self);
        }
        to_centimetres(self.max_distance)
    }

    /// Starts a run: its score is zero again, the high score stays.
    pub fn reset(&mut self)
        ensures
            final(self).current() == 0,
            final(self).best() == old(self).best(),
    {
        proof {
            use_type_invariant(&*self);
        }
        self.distance = 0;
    }
}

impl Default for HighScore {
    fn default() -> (score: HighScore)
        ensures
            score.current() == 0,
            score.best() == 0,
    {
        HighScore::new()
    }
}

} // verus!
