//! What a screen asks of the stack of screens.

use vstd::prelude::*;

verus! {

/// A screen of the game.
#[derive(Clone, Copy, Debug, PartialEq, Eq, Structural)]
pub enum Screen {
    MainMenu,
    /// The level with the given index is played.
    Breakout(usize),
    PauseMenu,
    Results,
}

/// A change of the stack of screens.
#[derive(Clone, Copy, Debug, PartialEq, Eq, Structural)]
pub enum Trans {
    /// Stay on this screen.
    Stay,
    /// Leave this screen for the one below it.
    Pop,
    /// Put a screen on top of this one.
    Push(Screen),
    /// Put a screen in the place of this one.
    Switch(Screen),
    /// Leave the game.
    Quit,
}

/// What the window reports to a screen.
#[derive(Clone, Copy, Debug, PartialEq, Eq, Structural)]
pub enum WindowEvent {
    CloseRequested,
    EscapeDown,
    Other,
}

} // verus!
