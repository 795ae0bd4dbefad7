use breakout::states::main_menu::{MainMenuButton, MainMenuEvent};
use breakout::states::pause::{PauseMenuButton, PauseMenuEvent};
use breakout::states::results::{ResultsButton, ResultsEvent};
use breakout::states::{MainMenu, PauseMenu, Results, Screen, Trans, WindowEvent};

#[test]
fn main_menu_starts_the_chosen_level() {
    let mut menu = MainMenu::default();
    assert_eq!(menu.level_index, 0);
    assert_eq!(
        menu.handle_event(MainMenuEvent::Click(MainMenuButton::Start), 3),
        Trans::Switch(Screen::Breakout(0))
    );
    assert_eq!(menu.handle_event(MainMenuEvent::Click(MainMenuButton::LevelUp), 3), Trans::Stay);
    assert_eq!(menu.handle_event(MainMenuEvent::Click(MainMenuButton::LevelUp), 3), Trans::Stay);
    assert_eq!(menu.level_index, 2);
    assert_eq!(
        menu.handle_event(MainMenuEvent::Click(MainMenuButton::Start), 3),
        Trans::Switch(Screen::Breakout(2))
    );
    assert_eq!(menu.level_index, 2);
}

#[test]
fn main_menu_keeps_the_level_in_range() {
    let mut menu = MainMenu::default();
    menu.handle_event(MainMenuEvent::Click(MainMenuButton::LevelDown), 3);
    assert_eq!(menu.level_index, 0);
    for _ in 0..5 {
        menu.handle_event(MainMenuEvent::Click(MainMenuButton::LevelUp), 3);
    }
    assert_eq!(menu.level_index, 2);
    menu.handle_event(MainMenuEvent::Click(MainMenuButton::LevelDown), 3);
    assert_eq!(menu.level_index, 1);
    menu.handle_event(MainMenuEvent::Click(MainMenuButton::LevelUp), 1);
    assert_eq!(menu.level_index, 0);
    let mut menu = MainMenu { level_index: usize::MAX };
    menu.handle_event(MainMenuEvent::Click(MainMenuButton::LevelUp), usize::MAX);
    assert_eq!(menu.level_index, usize::MAX - 1);
}

#[test]
fn main_menu_quits_on_close_and_escape() {
    let mut menu = MainMenu { level_index: 1 };
    assert_eq!(menu.handle_event(MainMenuEvent::Window(WindowEvent::CloseRequested), 3), Trans::Quit);
    assert_eq!(menu.handle_event(MainMenuEvent::Window(WindowEvent::EscapeDown), 3), Trans::Quit);
    assert_eq!(menu.handle_event(MainMenuEvent::Window(WindowEvent::Other), 3), Trans::Stay);
    assert_eq!(menu.handle_event(MainMenuEvent::Other, 3), Trans::Stay);
    assert_eq!(menu.level_index, 1);
}

#[test]
fn main_menu_forgets_the_level_when_shown_or_hidden() {
    let mut menu = MainMenu { level_index: 2 };
    menu.on_start();
    assert_eq!(menu.level_index, 0);
    menu.level_index = 2;
    menu.on_stop();
    assert_eq!(menu.level_index, 0);
}

#[test]
fn pause_menu_resumes_and_quits() {
    let mut menu = PauseMenu;
    let trans = menu.handle_event(PauseMenuEvent::Window(WindowEvent::CloseRequested));
    assert_eq!((trans.now, trans.later), (Trans::Quit, None));
    let trans = menu.handle_event(PauseMenuEvent::Window(WindowEvent::EscapeDown));
    assert_eq!((trans.now, trans.later), (Trans::Pop, None));
    let trans = menu.handle_event(PauseMenuEvent::Click(PauseMenuButton::Resume));
    assert_eq!((trans.now, trans.later), (Trans::Pop, None));
    let trans = menu.handle_event(PauseMenuEvent::Click(PauseMenuButton::QuitApp));
    assert_eq!((trans.now, trans.later), (Trans::Quit, None));
    let trans = menu.handle_event(PauseMenuEvent::Window(WindowEvent::Other));
    assert_eq!((trans.now, trans.later), (Trans::Stay, None));
    let trans = menu.handle_event(PauseMenuEvent::Other);
    assert_eq!((trans.now, trans.later), (Trans::Stay, None));
}

#[test]
fn pause_menu_goes_to_the_main_menu_in_two_steps() {
    let mut menu = PauseMenu;
    let trans = menu.handle_event(PauseMenuEvent::Click(PauseMenuButton::QuitToMenu));
    assert_eq!(trans.now, Trans::Stay);
    assert_eq!(trans.later, Some((Trans::Pop, Trans::Switch(Screen::MainMenu))));
}

#[test]
fn results_screen_leaves_by_its_buttons() {
    let mut results = Results;
    assert_eq!(results.handle_event(ResultsEvent::Window(WindowEvent::CloseRequested)), Trans::Quit);
    assert_eq!(results.handle_event(ResultsEvent::Window(WindowEvent::EscapeDown)), Trans::Stay);
    assert_eq!(results.handle_event(ResultsEvent::Window(WindowEvent::Other)), Trans::Stay);
    assert_eq!(results.handle_event(ResultsEvent::Click(ResultsButton::QuitApp)), Trans::Quit);
    assert_eq!(
        results.handle_event(ResultsEvent::Click(ResultsButton::QuitToMenu)),
        Trans::Switch(Screen::MainMenu)
    );
    assert_eq!(results.handle_event(ResultsEvent::Other), Trans::Stay);
}

#[test]
fn main_menu_without_levels_still_answers() {
    let mut menu = MainMenu::default();
    assert_eq!(menu.handle_event(MainMenuEvent::Click(MainMenuButton::LevelDown), 0), Trans::Stay);
    assert_eq!(menu.handle_event(MainMenuEvent::Window(WindowEvent::EscapeDown), 0), Trans::Quit);
    assert_eq!(
        menu.handle_event(MainMenuEvent::Click(MainMenuButton::Start), 0),
        Trans::Switch(Screen::Breakout(0))
    );
    assert_eq!(menu.level_index, 0);
}
