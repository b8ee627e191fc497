//! Whether the debug console is there to be written to.

use vstd::prelude::*;
use vstd::string::*;

verus! {

/// What the application knows of the debug console's window.
#[derive(Debug)]
pub struct DebugState {
    window_open: bool,
}

/// A line for the debug console.
#[derive(Debug)]
pub struct DebugLine {
    pub level: String,
    pub message: String,
}

impl DebugState {
    pub closed spec fn is_open(&self) -> bool {
        self.window_open
    }

    /// The console's window starts closed.
    pub fn new() -> (r: Self)
        ensures
            !r.is_open(),
    {
        DebugState { window_open: false }
    }
}

/// Records whether the debug console's window is open.
pub fn set_debug_window_state(debug: &mut DebugState, open: bool)
    ensures
        final(debug).is_open() == open,
{
    debug.window_open = open;
}

/// The line to send to the debug console: there is one only while its
/// window is open.
pub fn debug_log(debug: &DebugState, level: &str, message: &str) -> (r: Option<DebugLine>)
    ensures
        match r {
            Some(line) => debug.is_open() && line.level@ == level@ && line.message@ == message@,
            None => !debug.is_open(),
        },
{
    if !debug.window_open {
        return None;
    }
    Some(DebugLine { level: level.to_owned(), message: message.to_owned() })
}

/// What is known of the debug console's window when it is toggled.
#[derive(Clone, Copy, Debug, PartialEq, Eq, Structural)]
pub enum DebugWindowProbe {
    /// There is no such window.
    Missing,
    /// The window is there; whether it is visible is known or not.
    Present(Option<bool>),
}

/// The outcome of a toggle.
pub open spec fn spec_toggle(exiting: bool, busy: bool, probe: DebugWindowProbe) -> Result<
    bool,
    Seq<char>,
> {
    if exiting {
        Err("Cannot toggle debug window while exiting"@)
    } else if busy {
        Err("Toggle already in progress"@)
    } else {
        match probe {
            DebugWindowProbe::Missing => Err("Debug window is not initialized."@),
            DebugWindowProbe::Present(Some(visible)) => Ok(!visible),
            DebugWindowProbe::Present(None) => Ok(true),
        }
    }
}

/// Decides a toggle of the debug console: whether its window is to be
/// shown (`true`) or hidden (`false`).
///
/// While the application leaves, and while another toggle is under way,
/// the toggle is refused. A window whose visibility is unknown counts as
/// hidden.
pub fn toggle_debug_window(exiting: bool, busy: bool, probe: DebugWindowProbe) -> (r: Result<
    bool,
    String,
>)
    ensures
        match (r, spec_toggle(exiting, busy, probe)) {
            (Ok(show), Ok(expected)) => show == expected,
            (Err(message), Err(expected)) => message@ == expected,
            _ => false,
        },
{
    if exiting {
        return Err("Cannot toggle debug window while exiting".to_owned());
    }
    if busy {
        return Err("Toggle already in progress".to_owned());
    }
    match probe {
        DebugWindowProbe::Missing => Err("Debug window is not initialized.".to_owned()),
        DebugWindowProbe::Present(Some(visible)) => Ok(!visible),
        DebugWindowProbe::Present(None) => Ok(true),
    }
}

} // verus!
