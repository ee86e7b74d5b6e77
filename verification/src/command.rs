//! Commands the platform shell sends to the user interface, and task owners.
use vstd::prelude::*;

verus! {

/// A surface of the user interface.
#[derive(Clone, Copy, Debug, PartialEq, Eq, Structural, Hash)]
pub enum SurfaceKind {
    MainShell,
}

/// A request from the tray or hotkey to the user interface.
#[derive(Clone, Copy, Debug, PartialEq, Eq, Structural)]
pub enum HostUiCommand {
    ToggleMainShell,
    ShowMainShell,
    ShowSettings,
    ShowAbout,
    Quit,
}

/// Who owns a background task.
#[derive(Clone, Debug)]
pub enum TaskOwner {
    Process,
    Invocation(String),
    Surface(String),
}

} // verus!
