//! The controls that are held down.

use vstd::prelude::*;

verus! {

/// Which controls are held down at the moment. The simulation only looks at
/// levels; telling a press from a release is up to whoever fills this in.
#[derive(Clone, Copy, Debug, PartialEq, Eq, Structural)]
pub struct ButtonStates {
    pub left: bool,
    pub right: bool,
    pub up: bool,
    pub fire: bool,
}

impl ButtonStates {
    /// No control is held.
    pub open spec fn idle() -> ButtonStates {
        ButtonStates { left: false, right: false, up: false, fire: false }
    }

    /// The state in which no control is held.
    pub fn new() -> (states: ButtonStates)
        ensures
            states == ButtonStates::idle(),
    {
        ButtonStates { left: false, right: false, up: false, fire: false }
    }

    /// Lets every control go.
    pub fn reset(&mut self)
        ensures
            *final(self) == ButtonStates::idle(),
    {
        self.left = false;
        self.right = false;
        self.up = false;
        self.fire = false
    }
}

} // verus!
