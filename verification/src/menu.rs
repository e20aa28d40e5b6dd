//! The top-level menu.

use vstd::prelude::*;

verus! {

/// What the program does next.
#[derive(Debug, Clone, Copy, PartialEq, Eq, Structural)]
pub enum MenuAction {
    /// Run a selection round.
    Select,
    /// Read the settings again.
    Reload,
    /// Leave the program.
    Quit,
    /// Show the menu again.
    Ignore,
}

/// The action that the menu gives to the number `option`.
pub open spec fn action_of(option: usize) -> MenuAction {
    if option == 1 {
        MenuAction::Select
    } else if option == 2 {
        MenuAction::Reload
    } else if option == 3 {
        MenuAction::Quit
    } else {
        MenuAction::Ignore
    }
}

/// Decides what the program does for the number that the user gave at the
/// menu: 1 selects, 2 reloads, 3 quits, and any other number shows the menu
/// again.
pub fn menu_action(option: usize) -> (action: MenuAction)
    ensures
        action == action_of(option),
{
    match option {
        1 => MenuAction::Select,
        2 => MenuAction::Reload,
        3 => MenuAction::Quit,
        _ => MenuAction::Ignore,
    }
}

} // verus!
