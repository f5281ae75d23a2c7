//! What has the keyboard focus.

use vstd::prelude::*;

verus! {

/// What has the keyboard focus. A window of an X client is focused by the window
/// itself: its surface alone would leave the client without keys.
#[derive(Clone, Copy, Debug, PartialEq, Eq, Structural)]
#[allow(inconsistent_fields)]
pub enum KeyboardFocusTarget {
    /// A surface: of a window, a layer, a lock or a popup.
    Wayland(u64),
    /// A window of an X client, with its surface once it is mapped.
    X11 { window: u64, surface: Option<u64> },
}

impl KeyboardFocusTarget {
    /// The surface with the focus.
    pub fn surface(&self) -> (r: Option<u64>)
        ensures
            r == (match *self {
                KeyboardFocusTarget::Wayland(s) => Some(s),
                KeyboardFocusTarget::X11 { window: _, surface } => surface,
            }),
    {
        match *self {
            KeyboardFocusTarget::Wayland(s) => Some(s),
            KeyboardFocusTarget::X11 { window: _, surface } => surface,
        }
    }
}

} // verus!
