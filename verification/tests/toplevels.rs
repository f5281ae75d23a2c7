//! The state array of a window.

use shoestring_wm::foreign_toplevel_mgmt::state_array_bytes;
use shoestring_wm::foreign_toplevel_mgmt::state_array_in;

fn le(code: u32) -> [u8; 4] {
    code.to_ne_bytes()
}

#[test]
fn no_flags_is_empty() {
    assert!(state_array_bytes(false, false, false).is_empty());
}

#[test]
fn each_flag_emits_its_code() {
    assert_eq!(state_array_bytes(true, false, false), le(0));
    assert_eq!(state_array_bytes(false, true, false), le(1));
    assert_eq!(state_array_bytes(false, false, true), le(2));
}

#[test]
fn flags_concatenate_in_order() {
    let mut expected = Vec::new();
    expected.extend_from_slice(&le(0)); // maximized
    expected.extend_from_slice(&le(1)); // minimized
    expected.extend_from_slice(&le(2)); // activated
    assert_eq!(state_array_bytes(true, true, true), expected);
}

#[test]
fn length_is_four_bytes_per_set_flag() {
    assert_eq!(state_array_bytes(true, false, true).len(), 8);
    assert_eq!(state_array_bytes(true, true, true).len(), 12);
}

#[test]
fn fullscreen_code_never_appears() {
    // No combination of our three flags should ever encode 3 (fullscreen).
    for &m in &[false, true] {
        for &mi in &[false, true] {
            for &a in &[false, true] {
                let bytes = state_array_bytes(m, mi, a);
                for chunk in bytes.chunks_exact(4) {
                    let code = u32::from_ne_bytes(chunk.try_into().unwrap());
                    assert_ne!(code, 3, "fullscreen state must never be emitted");
                }
            }
        }
    }
}

#[test]
fn states_are_written_in_either_order() {
    assert_eq!(
        state_array_in(true, true, true, true),
        vec![0, 0, 0, 0, 1, 0, 0, 0, 2, 0, 0, 0]
    );
    assert_eq!(
        state_array_in(false, true, true, false),
        vec![0, 0, 0, 1, 0, 0, 0, 2]
    );
    assert!(state_array_in(false, false, false, false).is_empty());
}
