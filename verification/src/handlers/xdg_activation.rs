//! Windows that ask for the focus: who may take it.

use vstd::prelude::*;

use crate::state::ShoestringWm;

verus! {

/// How long a token is good for, in milliseconds.
pub const ACTIVATION_VALID_FOR_MS: u64 = 10_000;

/// What is known of a token.
#[derive(Clone, Copy, Debug, PartialEq, Eq, Structural)]
pub struct TokenData {
    pub token: u64,
    /// How long ago it was made, in milliseconds.
    pub age_ms: u64,
    /// Whether it was made on an input of the user.
    pub has_serial: bool,
    /// The window that has asked for it.
    pub requester: Option<u64>,
}

/// What follows a window's asking for the focus.
#[derive(Clone, Copy, Debug, PartialEq, Eq, Structural)]
pub struct Activation {
    pub window: u64,
    /// Whether it gets the focus; else it may be flagged.
    pub granted: bool,
}

/// What comes of a request: the token is struck off, whatever was decided, and
/// a window gets its answer.
#[derive(Clone, Copy, Debug, PartialEq, Eq, Structural)]
pub struct ActivationPlan {
    pub spent: u64,
    pub activation: Option<Activation>,
}

/// Whether a token is trusted: it is recent, and the user or the window with the
/// focus stands behind it.
pub fn activation_trusted(recent: bool, has_serial: bool, requester_is_focused: bool) -> (r: bool)
    ensures
        r == (recent && (has_serial || requester_is_focused)),
{
    recent && (has_serial || requester_is_focused)
}

impl ShoestringWm {
    /// Whether a token is trusted.
    pub open spec fn trusts(self, token: TokenData) -> bool {
        &&& token.age_ms <= ACTIVATION_VALID_FOR_MS
        &&& token.has_serial || (token.requester matches Some(w) && self.desktop.has_focus(w))
    }

    /// Whether a token is trusted.
    pub fn activation_is_trusted(&self, token: TokenData) -> (r: bool)
        ensures
            r == self.trusts(token),
    {
        let focused = match token.requester {
            Some(w) => match self.desktop.focused {
                Some(f) => f.id == w,
                None => false,
            },
            None => false,
        };
        activation_trusted(token.age_ms <= ACTIVATION_VALID_FOR_MS, token.has_serial, focused)
    }

    /// A window asks for the focus with a token, which is spent by that. Nothing
    /// is granted while the session is locked. Surfaces that are no window's are
    /// passed over.
    pub fn request_activation(&self, token: TokenData, window: Option<u64>) -> (r: ActivationPlan)
        ensures
            r == activation_plan(*self, token, window),
    {
        let activation = match window {
            Some(w) => {
                let granted = !self.is_locked() && self.activation_is_trusted(token);
                Some(Activation { window: w, granted })
            },
            None => None,
        };
        ActivationPlan { spent: token.token, activation }
    }
}

/// What comes of a window's asking for the focus.
pub open spec fn activation_plan(
    wm: ShoestringWm,
    token: TokenData,
    window: Option<u64>,
) -> ActivationPlan {
    ActivationPlan {
        spent: token.token,
        activation: match window {
            Some(w) => Some(
                Activation { window: w, granted: wm.lock_session is None && wm.trusts(token) },
            ),
            None => None,
        },
    }
}

/// The focus is not stolen: no window gets it by a token that is too old, by one
/// that neither the user nor the window with the focus stands behind, or while
/// the session is locked. The token is spent all the same.
pub proof fn law_focus_not_stolen(wm: ShoestringWm, token: TokenData, window: u64)
    requires
        ({
            ||| token.age_ms > ACTIVATION_VALID_FOR_MS
            ||| !token.has_serial && (token.requester matches Some(w) ==> !wm.desktop.has_focus(w))
            ||| wm.lock_session is Some
        }),
    ensures
        activation_plan(wm, token, Some(window)).activation == Some(
            Activation { window, granted: false },
        ),
        activation_plan(wm, token, Some(window)).spent == token.token,
{
}

/// A window gets the focus exactly where the session is not locked, its token is no
/// older than ten seconds, and either the user's input or the window with the focus
/// stands behind it. The token is spent in any case.
pub proof fn law_when_granted(wm: ShoestringWm, token: TokenData, window: u64)
    ensures
        ({
            let p = activation_plan(wm, token, Some(window));
            &&& p.spent == token.token
            &&& p.activation is Some && p.activation->0.window == window
            &&& p.activation->0.granted <==> wm.lock_session is None && token.age_ms <= 10000 && (
            token.has_serial || token.requester is Some && wm.desktop.focused is Some
                && wm.desktop.focused->0.id == token.requester->0)
        }),
        activation_plan(wm, token, None).activation is None,
        activation_plan(wm, token, None).spent == token.token,
{
}

} // verus!
