//! Dismissing popups by touch: a touch outside the client of the open popup
//! closes it.

use vstd::prelude::*;

verus! {

/// The grab of an open popup, as a touch finds it.
#[derive(Clone, Copy, Debug, PartialEq, Eq, Structural)]
pub struct PopupTouchGrab {
    /// The client of the popup with the grab, while there is one.
    pub client: Option<u64>,
    /// Whether the popups are gone.
    pub ended: bool,
    pub serial: u32,
    pub previous_serial: Option<u32>,
}

/// What is done with a touch while a popup has a grab.
#[derive(Clone, Copy, Debug, PartialEq, Eq, Structural)]
pub struct TouchPlan {
    /// Close every popup of the grab.
    pub dismiss: bool,
    /// End the grab.
    pub end_grab: bool,
    /// Deliver the event to what is under the touch; else to nothing.
    pub deliver: bool,
}

impl PopupTouchGrab {
    /// Whether a touch is on the popup's own client: there is a surface under it,
    /// a popup holds the grab, and both are of one client.
    pub open spec fn owns(self, focus: Option<u64>) -> bool {
        focus is Some && focus == self.client
    }

    /// Whether a touch on a surface of `focus` is on the popup's own client.
    pub fn focus_is_grab_client(&self, focus: Option<u64>) -> (r: bool)
        ensures
            r == self.owns(focus),
    {
        match (focus, self.client) {
            (Some(f), Some(c)) => f == c,
            _ => false,
        }
    }

    /// A finger goes down on a surface of the client `focus`. Outside the popup's
    /// client it closes the popups. It is delivered in any case.
    pub fn down(&self, focus: Option<u64>) -> (r: TouchPlan)
        ensures
            r == (TouchPlan {
                dismiss: !self.ended && !self.owns(focus),
                end_grab: self.ended || !self.owns(focus),
                deliver: true,
            }),
    {
        let own = self.focus_is_grab_client(focus);
        TouchPlan { dismiss: !self.ended && !own, end_grab: self.ended || !own, deliver: true }
    }

    /// A finger goes up.
    pub fn up(&self) -> (r: TouchPlan)
        ensures
            r == (TouchPlan { dismiss: false, end_grab: self.ended, deliver: true }),
    {
        TouchPlan { dismiss: false, end_grab: self.ended, deliver: true }
    }

    /// A finger moves. While the grab lasts only its own client sees the motion.
    pub fn motion(&self, focus: Option<u64>) -> (r: TouchPlan)
        ensures
            r == (TouchPlan {
                dismiss: false,
                end_grab: self.ended,
                deliver: self.ended || self.owns(focus),
            }),
    {
        let own = self.focus_is_grab_client(focus);
        TouchPlan { dismiss: false, end_grab: self.ended, deliver: self.ended || own }
    }

    /// Whether the end of the grab also ends the keyboard's grab and gives the
    /// focus back: the keyboard is grabbed under the grab's serial or the one
    /// before it.
    pub fn unset(&self, keyboard_grab: Option<u32>) -> (r: bool)
        ensures
            r == (keyboard_grab is Some && (keyboard_grab == Some(self.serial) || keyboard_grab
                == self.previous_serial)),
    {
        match keyboard_grab {
            Some(g) => {
                let previous = match self.previous_serial {
                    Some(p) => g == p,
                    None => false,
                };
                g == self.serial || previous
            },
            None => false,
        }
    }
}

/// A touch is on the popup's own client exactly where it is on a surface of that
/// client: not on nothing, not on another client, and not once no popup holds the grab.
pub proof fn law_touch_of_the_client(g: PopupTouchGrab, focus: Option<u64>)
    ensures
        focus is None ==> !g.owns(focus),
        g.client is None ==> !g.owns(focus),
        focus is Some && g.client is Some ==> (g.owns(focus) <==> focus->0 == g.client->0),
{
}

} // verus!
