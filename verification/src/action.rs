//! What input handling asks the application to do.
use vstd::prelude::*;

use crate::keys::KeyEvent;

verus! {

#[derive(Debug, PartialEq)]
pub enum Action {
    Quit,
    ReloadConfig,
    FocusNext,
    FocusPrev,
    FocusDirection(Direction),
    Tick,
    Resize(u16, u16),
    Notify(String),
    EnterInteract,
    ExitInteract,
    ToggleHelp,
    EnterEditMode,
    EditKey(KeyEvent),
    SwitchProfile(ProfileDirection),
}

#[derive(Debug, Clone, Copy, PartialEq, Eq, Structural)]
pub enum Direction {
    Up,
    Down,
    Left,
    Right,
}

#[derive(Debug, Clone, Copy, PartialEq, Eq, Structural)]
pub enum ProfileDirection {
    Next,
    Prev,
}

} // verus!
