//! The main window: what closing it does, and whether it starts hidden.

use vstd::prelude::*;

use crate::text::str_eq;

verus! {

/// What a close request on a window leads to.
#[derive(Debug, Clone, Copy, PartialEq, Eq, Structural)]
pub enum CloseAction {
    /// Let the window close.
    Proceed,
    /// Keep the window and hide it to the tray.
    HideToTray,
    /// Keep the window and ask the user to confirm exiting.
    AskToExit,
}

/// Closing the main window hides it to the tray when so configured, else
/// asks for confirmation when so configured; other windows just close.
pub fn close_action(is_main: bool, close_to_tray: bool, confirm_exit: bool) -> (res: CloseAction)
    ensures
        res == if !is_main {
            CloseAction::Proceed
        } else if close_to_tray {
            CloseAction::HideToTray
        } else if confirm_exit {
            CloseAction::AskToExit
        } else {
            CloseAction::Proceed
        },
{
    if !is_main {
        CloseAction::Proceed
    } else if close_to_tray {
        CloseAction::HideToTray
    } else if confirm_exit {
        CloseAction::AskToExit
    } else {
        CloseAction::Proceed
    }
}

/// The argument with which launch at login starts the application.
pub const MINIMIZED_FLAG: &'static str = "--minimized";

/// The application starts hidden when one of its arguments is the
/// minimized flag.
pub fn start_hidden(args: &Vec<String>) -> (res: bool)
    ensures
        res == exists|i: int| 0 <= i < args@.len() && (#[trigger] args@[i])@ == MINIMIZED_FLAG@,
{
    for i in 0..args.len()
        invariant
            forall|j: int| 0 <= j < i ==> (#[trigger] args@[j])@ != MINIMIZED_FLAG@,
    {
        if str_eq(args[i].as_str(), MINIMIZED_FLAG) {
            return true;
        }
    }
    false
}

} // verus!
