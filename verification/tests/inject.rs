//! Names of buttons, keys and modifiers.

use shoestring_wm::inject::is_supported_ascii;
use shoestring_wm::inject::parse_button;
use shoestring_wm::inject::parse_keysym_name;
use shoestring_wm::inject::resolve_modifier_alias;
use shoestring_wm::inject::InjectError;
use shoestring_wm::inject::BTN_LEFT;
use shoestring_wm::inject::BTN_MIDDLE;
use shoestring_wm::inject::BTN_RIGHT;

#[test]
fn parse_button_names_and_codes() {
    assert_eq!(parse_button("left").unwrap(), BTN_LEFT);
    assert_eq!(parse_button("right").unwrap(), BTN_RIGHT);
    assert_eq!(parse_button("middle").unwrap(), BTN_MIDDLE);
    assert_eq!(parse_button("272").unwrap(), 272);
    assert!(matches!(
        parse_button("scroll").unwrap_err(),
        InjectError::UnknownButton(_)
    ));
}

#[test]
fn parse_keysym_name_known_and_unknown() {
    // The keysyms that the keymap library gives for the names.
    assert_ne!(parse_keysym_name("Return", 0xff0d).unwrap(), 0);
    assert_ne!(parse_keysym_name("q", 0x71).unwrap(), 0);
    assert!(matches!(
        parse_keysym_name("definitely-not-a-keysym", 0).unwrap_err(),
        InjectError::UnknownKeysym(_)
    ));
}

#[test]
fn modifier_aliases_match_keybind_parser() {
    assert_eq!(resolve_modifier_alias("super"), Some("Super_L"));
    assert_eq!(resolve_modifier_alias("Super"), Some("Super_L"));
    assert_eq!(resolve_modifier_alias("LOGO"), Some("Super_L"));
    assert_eq!(resolve_modifier_alias("mod4"), Some("Super_L"));
    assert_eq!(resolve_modifier_alias("win"), Some("Super_L"));
    assert_eq!(resolve_modifier_alias("ctrl"), Some("Control_L"));
    assert_eq!(resolve_modifier_alias("control"), Some("Control_L"));
    assert_eq!(resolve_modifier_alias("alt"), Some("Alt_L"));
    assert_eq!(resolve_modifier_alias("mod1"), Some("Alt_L"));
    assert_eq!(resolve_modifier_alias("shift"), Some("Shift_L"));
    // Non-aliases fall through so raw keysym names still work.
    assert_eq!(resolve_modifier_alias("Hyper_L"), None);
    assert_eq!(resolve_modifier_alias("q"), None);
}

#[test]
fn supported_ascii_set() {
    assert!(is_supported_ascii('a'));
    assert!(is_supported_ascii('Z'));
    assert!(is_supported_ascii('5'));
    assert!(is_supported_ascii(' '));
    assert!(!is_supported_ascii('!'));
    assert!(!is_supported_ascii('\n'));
    assert!(!is_supported_ascii('é'));
}
