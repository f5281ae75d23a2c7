//! The default bindings, and settings that come from them.

use shoestring_wm::binds::Binding;
use shoestring_wm::binds::BindingTable;
use shoestring_wm::binds::ModMask;
use shoestring_wm::binds::ModifiersState;
use shoestring_wm::config::Action;
use shoestring_wm::inject::is_supported_ascii;
use shoestring_wm::inject::modifier_keysym_name;
use shoestring_wm::inject::parse_button;
use shoestring_wm::inject::parse_keysym_name;
use shoestring_wm::inject::InjectError;

fn bind(mods: &[&str], key: &str, action: Action) -> Binding {
    Binding {
        mods: mods.iter().map(|m| m.to_string()).collect(),
        key: key.to_string(),
        action,
    }
}

fn spawn(command: &str) -> Action {
    Action::Spawn {
        command: command.to_string(),
        args: Vec::new(),
    }
}

/// The default bindings, each with the keysym of its key.
fn defaults() -> (Vec<Binding>, Vec<u32>) {
    let mut all: Vec<(Binding, u32)> = vec![
        (bind(&["Super"], "Return", spawn("terminal")), 0xff0d),
        (bind(&["Super"], "p", spawn("shoestring-menu")), 0x70),
        (bind(&["Super"], "b", spawn("shoestring-menu")), 0x62),
        (bind(&["Super"], "e", Action::TileLeft), 0x65),
        (bind(&["Super"], "w", Action::TileRight), 0x77),
        (bind(&["Super"], "m", Action::Maximize), 0x6d),
        (bind(&["Super"], "d", Action::Minimize), 0x64),
        (bind(&["Super", "Shift"], "d", Action::Unminimize), 0x64),
        (bind(&["Super"], "x", Action::Close), 0x78),
        (
            bind(
                &["Super"],
                "h",
                Action::FocusWorkspaceRelative { delta: -1 },
            ),
            0x68,
        ),
        (
            bind(&["Super"], "l", Action::FocusWorkspaceRelative { delta: 1 }),
            0x6c,
        ),
        (
            bind(
                &["Super", "Ctrl"],
                "h",
                Action::MoveWindowToWorkspaceRelative { delta: -1 },
            ),
            0x68,
        ),
        (
            bind(
                &["Super", "Ctrl"],
                "l",
                Action::MoveWindowToWorkspaceRelative { delta: 1 },
            ),
            0x6c,
        ),
        (bind(&["Super", "Shift"], "l", Action::Lock), 0x6c),
        (bind(&["Super", "Shift"], "q", Action::Quit), 0x71),
        (bind(&[], "XF86AudioRaiseVolume", spawn("volume")), 0x1008_ff13),
        (bind(&[], "XF86AudioLowerVolume", spawn("volume")), 0x1008_ff11),
        (
            bind(&[], "XF86AudioMute", Action::ToggleAudioMute),
            0x1008_ff12,
        ),
        (
            bind(&[], "XF86AudioMicMute", Action::ToggleMicMute),
            0x1008_ffb2,
        ),
        (
            bind(&[], "XF86MonBrightnessUp", spawn("brightness")),
            0x1008_ff02,
        ),
        (
            bind(&[], "XF86MonBrightnessDown", spawn("brightness")),
            0x1008_ff03,
        ),
    ];
    for n in 1..10u8 {
        let key = n.to_string();
        let sym = 0x30 + n as u32;
        all.push((
            bind(&["Super"], &key, Action::FocusWorkspace { index: n }),
            sym,
        ));
        all.push((
            bind(
                &["Super", "Shift"],
                &key,
                Action::MoveWindowToWorkspace { index: n },
            ),
            sym,
        ));
    }
    for n in 1..13u8 {
        let key = format!("F{n}");
        all.push((
            bind(&["Ctrl", "Alt"], &key, Action::ChangeVt { vt: n }),
            0xffbd + n as u32,
        ));
    }
    all.into_iter().unzip()
}

#[test]
fn default_config_compiles_with_no_warnings() {
    let (bindings, keysyms) = defaults();
    let (table, warnings) = BindingTable::compile(&bindings, &keysyms);
    assert!(warnings.is_empty(), "default bindings warned: {warnings:?}");
    assert_eq!(table.binds.len(), bindings.len());
    for (b, k) in bindings.iter().zip(&keysyms) {
        let mut mask = ModMask::empty();
        for m in &b.mods {
            mask = mask.union(ModMask::parse_name(m).unwrap());
        }
        assert!(table.lookup(mask, *k).is_some());
    }
    assert!(matches!(
        table.lookup(
            ModMask::from_state(&ModifiersState {
                ctrl: false,
                alt: false,
                shift: true,
                logo: true
            }),
            0x71
        ),
        Some(Action::Quit)
    ));
}

#[test]
fn bad_bindings_are_named_and_left_out() {
    let bindings = vec![
        bind(&["Hyper"], "a", Action::Quit),
        bind(&["Super"], "nokey", Action::Quit),
        bind(&["Super"], "a", Action::Close),
    ];
    let (table, warnings) = BindingTable::compile(&bindings, &vec![0x61, 0, 0x61]);
    assert_eq!(warnings.len(), 2);
    assert!(warnings[0].contains("Hyper"));
    assert!(warnings[1].contains("nokey"));
    assert_eq!(table.binds.len(), 1);
}

#[test]
fn modifier_names_of_bindings_can_be_injected() {
    for name in ["ctrl", "Control", "alt", "shift", "super", "logo", "Mod4"] {
        assert_eq!(
            ModMask::parse_name(name).is_some(),
            modifier_keysym_name(name) != name,
            "{name}"
        );
    }
    for (key, names) in [
        ("Super_L", ["super", "WIN"]),
        ("Control_L", ["ctrl", "Control"]),
        ("Alt_L", ["alt", "mod1"]),
    ] {
        assert_eq!(modifier_keysym_name(names[0]), key);
        assert_eq!(modifier_keysym_name(names[1]), key);
        assert_eq!(
            ModMask::parse_name(names[0]).unwrap().bits,
            ModMask::parse_name(names[1]).unwrap().bits
        );
    }
}

#[test]
fn injection_faults_are_told() {
    assert_eq!(parse_button("left").ok(), Some(0x110));
    let bad = parse_button("fourth").unwrap_err();
    assert!(matches!(bad, InjectError::UnknownButton(_)));
    assert!(bad.message().contains("fourth"));
    let unknown = parse_keysym_name("no\"key", 0).unwrap_err();
    assert!(matches!(unknown, InjectError::UnknownKeysym(_)));
    // The name is shown quoted, with its own quote escaped.
    assert!(unknown.message().contains("\"no\\\"key\""));
    assert_eq!(parse_keysym_name("a", 0x61).ok(), Some(0x61));
    assert!(InjectError::UnsupportedChar('\u{7}')
        .message()
        .contains("'\\u{7}'"));
    assert!(is_supported_ascii('Z') && is_supported_ascii('0') && is_supported_ascii(' '));
    assert!(!is_supported_ascii('~') && !is_supported_ascii('\n'));
}
