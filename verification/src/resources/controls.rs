//! The control schemes on offer.

use vstd::prelude::*;

verus! {

/// The label of the options button while the arrow keys steer.
pub const ARROWS_LABEL: &'static str = "Controls: Arrow keys";

/// The label of the options button while W, A, S and D steer.
pub const WASD_LABEL: &'static str = "Controls: WASD";

/// A control scheme.
#[derive(Clone, Copy, Debug, PartialEq, Eq, Structural)]
pub enum Controls {
    Arrows,
    Wasd,
}

impl Default for Controls {
    fn default() -> (controls: Controls)
        ensures
            controls == Controls::Arrows,
    {
        Controls::Arrows
    }
}

impl Controls {
    /// The scheme that a click on the controls button switches to.
    pub open spec fn next(self) -> Controls {
        match self {
            Controls::Arrows => Controls::Wasd,
            Controls::Wasd => Controls::Arrows,
        }
    }

    /// The label to show on the controls button.
    pub fn get_button_label(&self) -> (label: &'static str)
        ensures
            *self == Controls::Arrows ==> label@ == ARROWS_LABEL@,
            *self == Controls::Wasd ==> label@ == WASD_LABEL@,
    {
        match self {
            Controls::Arrows => ARROWS_LABEL,
            Controls::Wasd => WASD_LABEL,
        }
    }

    /// The scheme that a click on the controls button switches to.
    pub fn successor(&self) -> (scheme: Controls)
        ensures
            scheme == self.next(),
            scheme != *self,
            scheme.next() == *self,
    {
        match self {
            Controls::Arrows => Controls::Wasd,
            Controls::Wasd => Controls::Arrows,
        }
    }
}

} // verus!
