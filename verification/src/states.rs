//! The screens of the game and what each of them decides: the level that is
//! being played, and the menus around it.

pub mod breakout;
pub mod main_menu;
pub mod pause;
pub mod results;
pub mod trans;

pub use self::breakout::Breakout;
pub use self::main_menu::MainMenu;
pub use self::pause::PauseMenu;
pub use self::results::Results;
pub use self::trans::{Screen, Trans, WindowEvent};
