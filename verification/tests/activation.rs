//! Which activation tokens are trusted.

use shoestring_wm::handlers::xdg_activation::activation_trusted;

#[test]
fn stale_tokens_are_never_trusted() {
    // Even a serial-backed, focused-requester token is refused once stale.
    assert!(!activation_trusted(false, true, true));
    assert!(!activation_trusted(false, true, false));
    assert!(!activation_trusted(false, false, true));
}

#[test]
fn recent_token_trusted_on_serial_or_focused_requester() {
    // A real input serial is sufficient on its own.
    assert!(activation_trusted(true, true, false));
    // So is the foreground app handing off (no serial, requester focused).
    assert!(activation_trusted(true, false, true));
    // Both signals present is of course fine too.
    assert!(activation_trusted(true, true, true));
}

#[test]
fn recent_but_unsolicited_is_refused() {
    // Recent, but neither user-driven nor from the focused app.
    assert!(!activation_trusted(true, false, false));
}
