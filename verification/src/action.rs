//! Player control input.
//!
//! A client frame decodes into a [`PlayerAction`]: an ordered sequence of
//! discrete control signals. The `Unknown` signal exists so that an
//! unrecognized control code has a name; it is rejected wherever it
//! appears and never moves a tank.

use vstd::prelude::*;

verus! {

/// One discrete control signal.
#[derive(Clone, Copy, Debug, PartialEq, Eq, Structural)]
pub enum KeyPress {
    Up,
    Down,
    Left,
    Right,
    Unknown,
}

/// An ordered sequence of control signals produced by one client frame.
#[derive(Debug)]
pub struct PlayerAction {
    pub control: Vec<KeyPress>,
}

impl View for PlayerAction {
    type V = Seq<KeyPress>;

    open spec fn view(&self) -> Seq<KeyPress> {
        self.control@
    }
}

impl PlayerAction {
    pub fn new(control: Vec<KeyPress>) -> (a: PlayerAction)
        ensures
            a@ == control@,
    {
        PlayerAction { control }
    }
}

/// A recoverable failure while applying a player's action.
#[derive(Clone, Copy, Debug, PartialEq, Eq, Structural)]
pub enum ActionError {
    /// The action carried an unrecognized control signal.
    UnknownControl,
    /// The addressed player has no live tank.
    UnknownPlayer,
}

/// Holds when every signal in the sequence is a recognized control.
pub open spec fn controls_ok(cs: Seq<KeyPress>) -> bool {
    forall|i: int| 0 <= i < cs.len() ==> cs[i] != KeyPress::Unknown
}

} // verus!
