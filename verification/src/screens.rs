//! Which screen is shown, and what a key press does on it.

use crate::keymaps::Keymap;
use vstd::prelude::*;

verus! {

/// The screen that is on display.
#[derive(Clone, Copy, Debug, PartialEq, Eq, Structural)]
pub enum Screen {
    Welcome,
    Help,
    Dungeon,
}

/// What the program does in answer to a key press.
#[derive(Clone, Copy, Debug, PartialEq, Eq, Structural)]
pub enum Action {
    /// Leave the game.
    Quit,
    /// Draw the welcome screen.
    ShowWelcome,
    /// Draw the help screen.
    ShowHelp,
    /// Draw the dungeon, after generating a new one where `regenerate` is
    /// set.
    ShowDungeon { regenerate: bool },
    /// Nothing.
    Ignore,
}

/// The screen and the action that follow a key press: quitting keeps the
/// screen; the help key opens the help from the welcome screen and goes
/// back to the welcome screen from anywhere else; the start key shows the
/// dungeon, and a new one where a dungeon was already on display; the
/// other keys do nothing.
pub open spec fn transition(current: Screen, keymap: Keymap) -> (Screen, Action) {
    match keymap {
        Keymap::Quit => (current, Action::Quit),
        Keymap::Help => if current == Screen::Welcome {
            (Screen::Help, Action::ShowHelp)
        } else {
            (Screen::Welcome, Action::ShowWelcome)
        },
        Keymap::Start => (
            Screen::Dungeon,
            Action::ShowDungeon { regenerate: current == Screen::Dungeon },
        ),
        _ => (current, Action::Ignore),
    }
}

/// Decides what a key press does on the current screen.
pub fn next_screen(current: Screen, keymap: Keymap) -> (next: (Screen, Action))
    ensures
        next == transition(current, keymap),
{
    match keymap {
        Keymap::Quit => (current, Action::Quit),
        Keymap::Help => match current {
            Screen::Welcome => (Screen::Help, Action::ShowHelp),
            _ => (Screen::Welcome, Action::ShowWelcome),
        },
        Keymap::Start => {
            let regenerate = match current {
                Screen::Dungeon => true,
                _ => false,
            };
            (Screen::Dungeon, Action::ShowDungeon { regenerate })
        },
        _ => (current, Action::Ignore),
    }
}

} // verus!
