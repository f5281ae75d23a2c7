//! Who draws a window's decoration: never the client.

use vstd::prelude::*;

verus! {

/// Who draws a window's decoration.
#[derive(Clone, Copy, Debug, PartialEq, Eq, Structural)]
pub enum DecorationMode {
    ClientSide,
    ServerSide,
}

/// What a client asks for.
#[derive(Clone, Copy, Debug, PartialEq, Eq, Structural)]
pub enum DecorationRequest {
    New,
    SetMode(DecorationMode),
    UnsetMode,
}

/// What a window's decoration is set to.
#[derive(Clone, Copy, Debug, PartialEq, Eq, Structural)]
pub struct DecorationPlan {
    pub mode: DecorationMode,
    /// Whether the client is told at once; else it is with its first configure.
    pub configure: bool,
}

/// Whatever a client asks for, the manager draws the decoration. `configured`
/// tells whether the window has had its first configure.
pub fn force_server_side(request: DecorationRequest, configured: bool) -> (r: DecorationPlan)
    ensures
        r == (DecorationPlan { mode: DecorationMode::ServerSide, configure: configured }),
{
    DecorationPlan { mode: DecorationMode::ServerSide, configure: configured }
}

} // verus!
