//! The main menu: choosing a level and starting it.

use vstd::prelude::*;
use crate::states::trans::{Screen, Trans, WindowEvent};

verus! {

/// The buttons of the main menu.
#[derive(Clone, Copy, Debug, PartialEq, Eq, Structural)]
pub enum MainMenuButton {
    Start,
    LevelUp,
    LevelDown,
}

/// What the main menu is told.
#[derive(Clone, Copy, Debug, PartialEq, Eq, Structural)]
pub enum MainMenuEvent {
    Window(WindowEvent),
    Click(MainMenuButton),
    Other,
}

/// The main menu. It remembers the level that is chosen.
#[derive(Clone, Copy, Debug, PartialEq, Eq, Structural)]
pub struct MainMenu {
    pub level_index: usize,
}

/// The index after one step up among `levels` levels: it stops at the last
/// level.
pub open spec fn level_above(index: usize, levels: usize) -> usize {
    if index + 1 < levels {
        (index + 1) as usize
    } else {
        (levels - 1) as usize
    }
}

/// The index after one step down: it stops at the first level.
pub open spec fn level_below(index: usize) -> usize {
    if index > 0 {
        (index - 1) as usize
    } else {
        0
    }
}

/// The level that is chosen after an event.
pub open spec fn chosen_level(index: usize, event: MainMenuEvent, levels: usize) -> usize {
    match event {
        MainMenuEvent::Click(MainMenuButton::LevelUp) => level_above(index, levels),
        MainMenuEvent::Click(MainMenuButton::LevelDown) => level_below(index),
        _ => index,
    }
}

/// What the main menu asks for after an event: closing the window or the
/// escape key leaves the game, the start button starts the chosen level.
pub open spec fn main_menu_trans(index: usize, event: MainMenuEvent) -> Trans {
    match event {
        MainMenuEvent::Window(WindowEvent::CloseRequested) => Trans::Quit,
        MainMenuEvent::Window(WindowEvent::EscapeDown) => Trans::Quit,
        MainMenuEvent::Click(MainMenuButton::Start) => Trans::Switch(Screen::Breakout(index)),
        _ => Trans::Stay,
    }
}

impl Default for MainMenu {
    fn default() -> (menu: MainMenu)
        ensures
            menu.level_index == 0,
    {
        MainMenu { level_index: 0 }
    }
}

impl MainMenu {
    /// Shows the menu: the first level is chosen.
    pub fn on_start(&mut self)
        ensures
            final(self).level_index == 0,
    {
        self.level_index = 0;
    }

    /// Handles one event, given the number of levels that there are. A step
    /// up needs at least one level.
    pub fn handle_event(&mut self, event: MainMenuEvent, levels: usize) -> (trans: Trans)
        requires
            event == MainMenuEvent::Click(MainMenuButton::LevelUp) ==> levels > 0,
        ensures
            trans == main_menu_trans(old(self).level_index, event),
            final(self).level_index == chosen_level(old(self).level_index, event, levels),
            levels > old(self).level_index ==> levels > final(self).level_index,
    {
        match event {
            MainMenuEvent::Window(WindowEvent::CloseRequested) => Trans::Quit,
            MainMenuEvent::Window(WindowEvent::EscapeDown) => Trans::Quit,
            MainMenuEvent::Click(MainMenuButton::Start) => Trans::Switch(
                Screen::Breakout(self.level_index),
            ),
            MainMenuEvent::Click(MainMenuButton::LevelDown) => {
                if self.level_index > 0 {
                    self.level_index = self.level_index - 1;
                }
                Trans::Stay
            },
            MainMenuEvent::Click(MainMenuButton::LevelUp) => {
                if self.level_index < levels - 1 {
                    self.level_index = self.level_index + 1;
                } else {
                    self.level_index = levels - 1;
                }
                Trans::Stay
            },
            _ => Trans::Stay,
        }
    }

    /// Hides the menu: the first level is chosen again.
    pub fn on_stop(&mut self)
        ensures
            final(self).level_index == 0,
    {
        self.level_index = 0;
    }
}

} // verus!
