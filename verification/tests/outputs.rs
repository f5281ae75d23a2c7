//! Orientations, gamma tables, workspaces and bindings.

use shoestring_wm::backend::transform_from_config;
use shoestring_wm::backend::transform_name;
use shoestring_wm::backend::OutputTransform;
use shoestring_wm::backend::Transform;
use shoestring_wm::binds::Binding;
use shoestring_wm::binds::BindingTable;
use shoestring_wm::binds::ModMask;
use shoestring_wm::binds::MOD_LOGO;
use shoestring_wm::binds::MOD_SHIFT;
use shoestring_wm::config::Action;
use shoestring_wm::ext_workspace::coordinates_bytes;
use shoestring_wm::ext_workspace::workspace_name;
use shoestring_wm::gamma_control::read_ramp;
use shoestring_wm::gamma_control::GammaRamp;
use shoestring_wm::gamma_control::GammaReadError;
use shoestring_wm::wire::order_of_one;

#[test]
fn transform_config_covers_every_variant() {
    let cases = [
        (OutputTransform::Normal, Transform::Normal, "normal"),
        (OutputTransform::_90, Transform::_90, "90"),
        (OutputTransform::_180, Transform::_180, "180"),
        (OutputTransform::_270, Transform::_270, "270"),
        (OutputTransform::Flipped, Transform::Flipped, "flipped"),
        (
            OutputTransform::Flipped90,
            Transform::Flipped90,
            "flipped-90",
        ),
        (
            OutputTransform::Flipped180,
            Transform::Flipped180,
            "flipped-180",
        ),
        (
            OutputTransform::Flipped270,
            Transform::Flipped270,
            "flipped-270",
        ),
    ];
    for (cfg, shown, name) in cases {
        assert_eq!(transform_from_config(cfg), shown);
        assert_eq!(transform_name(shown), name);
    }
}

#[test]
fn coordinates_carry_the_index_as_one_u32() {
    assert_eq!(coordinates_bytes(0), 0u32.to_ne_bytes());
    assert_eq!(coordinates_bytes(5), 5u32.to_ne_bytes());
    assert_eq!(coordinates_bytes(5).len(), 4);
}

#[test]
fn order_is_seen_in_the_bytes_of_one() {
    assert!(order_of_one(&1u32.to_le_bytes().to_vec()));
    assert!(!order_of_one(&1u32.to_be_bytes().to_vec()));
}

#[test]
fn name_falls_back_to_one_based_number() {
    let names = vec![String::new(), "web".to_string(), String::new()];
    assert_eq!(workspace_name(&names, 0), "1");
    assert_eq!(workspace_name(&names, 1), "web");
    assert_eq!(workspace_name(&names, 2), "3");
    // Out-of-range index still yields the number rather than panicking.
    assert_eq!(workspace_name(&names, 9), "10");
}

fn table(channels: &[&[u16]]) -> Vec<u8> {
    let mut bytes = Vec::new();
    for ch in channels {
        for v in *ch {
            bytes.extend_from_slice(&v.to_ne_bytes());
        }
    }
    bytes
}

#[test]
fn read_ramp_splits_channels_in_order() {
    let red = [1u16, 2, 3, 4];
    let green = [10u16, 20, 30, 40];
    let blue = [100u16, 200, 300, 400];
    let bytes = table(&[&red, &green, &blue]);
    let ramp = read_ramp(&bytes, 4).ok().expect("valid table");
    assert_eq!(ramp.red, red);
    assert_eq!(ramp.green, green);
    assert_eq!(ramp.blue, blue);
}

#[test]
fn read_ramp_rejects_undersized_fd() {
    // Claims size 4 (needs 24 bytes) but supplies only 5 u16 (10 bytes).
    let bytes = table(&[&[1u16, 2], &[3u16, 4], &[5u16]]);
    assert!(matches!(
        read_ramp(&bytes, 4),
        Err(GammaReadError::BadSize)
    ));
}

#[test]
fn identity_spans_the_full_u16_range() {
    let r = GammaRamp::identity(256);
    assert_eq!(r.red.len(), 256);
    assert_eq!(r.green.len(), 256);
    assert_eq!(r.blue.len(), 256);
    assert_eq!(r.red[0], 0);
    assert_eq!(*r.red.last().unwrap(), u16::MAX);
    // Monotonically non-decreasing.
    assert!(r.red.windows(2).all(|w| w[0] <= w[1]));
}

const KEY_Q: u32 = 0x71;

#[test]
fn compiles_known_binding_and_looks_up() {
    let bindings = vec![Binding {
        mods: vec!["Super".into(), "Shift".into()],
        key: "q".into(),
        action: Action::Quit,
    }];
    let (table, warnings) = BindingTable::compile(&bindings, &vec![KEY_Q]);
    assert!(warnings.is_empty());

    let action = table
        .lookup(
            ModMask {
                bits: MOD_LOGO | MOD_SHIFT,
            },
            KEY_Q,
        )
        .expect("should find binding");
    assert!(matches!(action, Action::Quit));

    // Wrong modifier set → no match.
    assert!(table.lookup(ModMask { bits: MOD_LOGO }, KEY_Q).is_none());
}

#[test]
fn unknown_modifier_or_key_warns() {
    let bindings = vec![
        Binding {
            mods: vec!["Hyper".into()],
            key: "q".into(),
            action: Action::Quit,
        },
        Binding {
            mods: vec!["Super".into()],
            key: "NoSuchKey".into(),
            action: Action::Quit,
        },
    ];
    let (_table, warnings) = BindingTable::compile(&bindings, &vec![KEY_Q, 0]);
    assert_eq!(warnings.len(), 2);
}
