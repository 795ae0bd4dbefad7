//! The pause menu, which lies on top of the level that is played.

use vstd::prelude::*;
use crate::states::trans::{Screen, Trans, WindowEvent};

verus! {

/// The buttons of the pause menu.
#[derive(Clone, Copy, Debug, PartialEq, Eq, Structural)]
pub enum PauseMenuButton {
    Resume,
    QuitToMenu,
    QuitApp,
}

/// What the pause menu is told.
#[derive(Clone, Copy, Debug, PartialEq, Eq, Structural)]
pub enum PauseMenuEvent {
    Window(WindowEvent),
    Click(PauseMenuButton),
    Other,
}

/// What the pause menu asks for: a change to make at once, and changes to
/// make after it, in their order.
#[derive(Clone, Copy, Debug)]
pub struct PauseMenuTrans {
    pub now: Trans,
    pub later: Option<(Trans, Trans)>,
}

/// The pause menu.
#[derive(Clone, Copy, Debug, PartialEq, Eq, Structural)]
pub struct PauseMenu;

/// What the pause menu asks for after an event. Closing the window or the
/// quit button leaves the game; the escape key or the resume button goes
/// back to the level; the button to the menu leaves the pause menu and then
/// puts the main menu in the place of the level.
pub open spec fn pause_menu_trans(event: PauseMenuEvent) -> PauseMenuTrans {
    match event {
        PauseMenuEvent::Window(WindowEvent::CloseRequested) => PauseMenuTrans {
            now: Trans::Quit,
            later: None,
        },
        PauseMenuEvent::Window(WindowEvent::EscapeDown) => PauseMenuTrans {
            now: Trans::Pop,
            later: None,
        },
        PauseMenuEvent::Click(PauseMenuButton::Resume) => PauseMenuTrans {
            now: Trans::Pop,
            later: None,
        },
        PauseMenuEvent::Click(PauseMenuButton::QuitApp) => PauseMenuTrans {
            now: Trans::Quit,
            later: None,
        },
        PauseMenuEvent::Click(PauseMenuButton::QuitToMenu) => PauseMenuTrans {
            now: Trans::Stay,
            later: Some((Trans::Pop, Trans::Switch(Screen::MainMenu))),
        },
        _ => PauseMenuTrans { now: Trans::Stay, later: None },
    }
}

impl PauseMenu {
    /// Handles one event.
    pub fn handle_event(&mut self, event: PauseMenuEvent) -> (trans: PauseMenuTrans)
        ensures
            trans == pause_menu_trans(event),
    {
        match event {
            PauseMenuEvent::Window(WindowEvent::CloseRequested) => PauseMenuTrans {
                now: Trans::Quit,
                later: None,
            },
            PauseMenuEvent::Window(WindowEvent::EscapeDown) => PauseMenuTrans {
                now: Trans::Pop,
                later: None,
            },
            PauseMenuEvent::Click(PauseMenuButton::Resume) => PauseMenuTrans {
                now: Trans::Pop,
                later: None,
            },
            PauseMenuEvent::Click(PauseMenuButton::QuitApp) => PauseMenuTrans {
                now: Trans::Quit,
                later: None,
            },
            PauseMenuEvent::Click(PauseMenuButton::QuitToMenu) => PauseMenuTrans {
                now: Trans::Stay,
                later: Some((Trans::Pop, Trans::Switch(Screen::MainMenu))),
            },
            _ => PauseMenuTrans { now: Trans::Stay, later: None },
        }
    }
}

} // verus!
