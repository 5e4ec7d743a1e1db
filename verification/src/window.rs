//! Bringing up the launcher window: the resident daemon keeps the
//! application alive and builds the window hidden; a normal start builds it
//! and shows it.
use vstd::prelude::*;

verus! {

/// What happens once the window exists.
#[derive(Debug, Clone, Copy, PartialEq, Eq, Structural)]
pub enum WindowStart {
    /// The window already existed: nothing more.
    Keep,
    /// The window was just built for the daemon: it stays hidden.
    Hide,
    /// The window was just built: it is shown.
    Present,
}

/// The steps of bringing up the interface.
#[derive(Debug, Clone, Copy, PartialEq, Eq, Structural)]
pub struct UiStart {
    /// Take the hold that keeps the application running without a window.
    pub take_hold: bool,
    /// Build the window.
    pub build: bool,
    /// What becomes of the window afterwards.
    pub window: WindowStart,
}

/// The steps of bringing up the interface: a daemon takes the hold once; the
/// window is built once, hidden for a daemon and shown otherwise.
pub fn ui_start(daemon: bool, holding: bool, built: bool) -> (r: UiStart)
    ensures
        r.take_hold == (daemon && !holding),
        r.build == !built,
        r.window == if built {
            WindowStart::Keep
        } else if daemon {
            WindowStart::Hide
        } else {
            WindowStart::Present
        },
{
    UiStart {
        take_hold: daemon && !holding,
        build: !built,
        window: if built {
            WindowStart::Keep
        } else if daemon {
            WindowStart::Hide
        } else {
            WindowStart::Present
        },
    }
}

} // verus!
