use vstd::prelude::*;
use crate::screens::UserScreen;

verus! {

/// The entries of the main menu.
#[derive(Debug, Clone, Copy, PartialEq, Eq, Structural)]
pub enum MainSelections {
    Continue,
    Load,
    NewGame,
    Gallery,
    Setting,
    About,
    Exit,
}

/// Number of entries of the main menu.
pub const SELECTION_LEN: usize = 7;

/// The entry selected when the main menu opens: "new game".
pub const DEFAULT_SELECTION: usize = 2;

/// What choosing a menu entry asks of the game.
#[derive(Debug, Clone, Copy, PartialEq, Eq, Structural)]
pub enum MenuCommand {
    GoScene(UserScreen),
    QuitGame,
    ContinueGame,
}

/// The menu entries, top to bottom.
pub open spec fn selection_spec(index: int) -> MainSelections {
    if index == 0 {
        MainSelections::Continue
    } else if index == 1 {
        MainSelections::Load
    } else if index == 2 {
        MainSelections::NewGame
    } else if index == 3 {
        MainSelections::Gallery
    } else if index == 4 {
        MainSelections::Setting
    } else if index == 5 {
        MainSelections::About
    } else {
        MainSelections::Exit
    }
}

/// What each entry does: a new game opens the dialogue screen, "load",
/// "gallery", "setting" and "about" open their screens, "exit" quits and
/// "continue" continues the last game.
pub open spec fn command_spec(s: MainSelections) -> MenuCommand {
    match s {
        MainSelections::NewGame => MenuCommand::GoScene(UserScreen::Dialogue),
        MainSelections::Load => MenuCommand::GoScene(UserScreen::Load),
        MainSelections::Gallery => MenuCommand::GoScene(UserScreen::Gallery),
        MainSelections::Setting => MenuCommand::GoScene(UserScreen::Setting),
        MainSelections::Exit => MenuCommand::QuitGame,
        MainSelections::About => MenuCommand::GoScene(UserScreen::About),
        MainSelections::Continue => MenuCommand::ContinueGame,
    }
}

/// The entry at position `index` of the menu, if there is one.
pub fn selection_at(index: usize) -> (r: Option<MainSelections>)
    ensures
        index < SELECTION_LEN ==> r == Some(selection_spec(index as int)),
        index >= SELECTION_LEN ==> r is None,
{
    match index {
        0 => Some(MainSelections::Continue),
        1 => Some(MainSelections::Load),
        2 => Some(MainSelections::NewGame),
        3 => Some(MainSelections::Gallery),
        4 => Some(MainSelections::Setting),
        5 => Some(MainSelections::About),
        6 => Some(MainSelections::Exit),
        _ => None,
    }
}

/// The command of the entry at the selected position (which must be one of the entries).
pub fn execute_selection(selected: usize) -> (r: MenuCommand)
    requires
        selected < SELECTION_LEN,
    ensures
        r == command_spec(selection_spec(selected as int)),
{
    let s = match selection_at(selected) {
        Some(s) => s,
        None => MainSelections::Exit,
    };
    match s {
        MainSelections::NewGame => MenuCommand::GoScene(UserScreen::Dialogue),
        MainSelections::Load => MenuCommand::GoScene(UserScreen::Load),
        MainSelections::Gallery => MenuCommand::GoScene(UserScreen::Gallery),
        MainSelections::Setting => MenuCommand::GoScene(UserScreen::Setting),
        MainSelections::Exit => MenuCommand::QuitGame,
        MainSelections::About => MenuCommand::GoScene(UserScreen::About),
        MainSelections::Continue => MenuCommand::ContinueGame,
    }
}

} // verus!
