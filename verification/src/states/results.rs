//! The screen that shows the score when a level is over.

use vstd::prelude::*;
use crate::states::trans::{Screen, Trans, WindowEvent};

verus! {

/// The buttons of the results screen.
#[derive(Clone, Copy, Debug, PartialEq, Eq, Structural)]
pub enum ResultsButton {
    QuitToMenu,
    QuitApp,
}

/// What the results screen is told.
#[derive(Clone, Copy, Debug, PartialEq, Eq, Structural)]
pub enum ResultsEvent {
    Window(WindowEvent),
    Click(ResultsButton),
    Other,
}

/// The results screen.
#[derive(Clone, Copy, Debug, PartialEq, Eq, Structural)]
pub struct Results;

/// What the results screen asks for after an event: closing the window or
/// the quit button leaves the game, the button to the menu shows the main
/// menu.
pub open spec fn results_trans(event: ResultsEvent) -> Trans {
    match event {
        ResultsEvent::Window(WindowEvent::CloseRequested) => Trans::Quit,
        ResultsEvent::Click(ResultsButton::QuitApp) => Trans::Quit,
        ResultsEvent::Click(ResultsButton::QuitToMenu) => Trans::Switch(Screen::MainMenu),
        _ => Trans::Stay,
    }
}

impl Results {
    /// Handles one event.
    pub fn handle_event(&mut self, event: ResultsEvent) -> (trans: Trans)
        ensures
            trans == results_trans(event),
    {
        match event {
            ResultsEvent::Window(WindowEvent::CloseRequested) => Trans::Quit,
            ResultsEvent::Click(ResultsButton::QuitApp) => Trans::Quit,
            ResultsEvent::Click(ResultsButton::QuitToMenu) => Trans::Switch(Screen::MainMenu),
            _ => Trans::Stay,
        }
    }
}

} // verus!
