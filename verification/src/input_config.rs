//! The settings of input devices: what was configured, or the device's default.

use vstd::prelude::*;

use crate::state::ShoestringWm;

verus! {

#[derive(Clone, Copy, Debug, PartialEq, Eq, Structural)]
pub enum TapButtonMap {
    LeftRightMiddle,
    LeftMiddleRight,
}

#[derive(Clone, Copy, Debug, PartialEq, Eq, Structural)]
pub enum ScrollMethod {
    NoScroll,
    TwoFinger,
    Edge,
    OnButtonDown,
}

#[derive(Clone, Copy, Debug, PartialEq, Eq, Structural)]
pub enum ClickMethod {
    ButtonAreas,
    Clickfinger,
}

#[derive(Clone, Copy, Debug, PartialEq, Eq, Structural)]
pub enum AccelProfile {
    Adaptive,
    Flat,
}

#[derive(Clone, Copy, Debug, PartialEq, Eq, Structural)]
pub enum DragLock {
    Disabled,
    EnabledTimeout,
    EnabledSticky,
}

/// What the user has configured. The speed is given by the bits of a number that
/// lies in its range.
#[derive(Clone, Copy, Debug, PartialEq, Eq, Structural)]
pub struct InputSettings {
    pub tap_to_click: Option<bool>,
    pub tap_and_drag: Option<bool>,
    pub drag_lock: Option<bool>,
    pub natural_scroll: Option<bool>,
    pub scroll_button: Option<u32>,
    pub accel_speed_bits: Option<u64>,
    pub disable_while_typing: Option<bool>,
    pub left_handed: Option<bool>,
    pub middle_emulation: Option<bool>,
    pub tap_button_map: Option<TapButtonMap>,
    pub scroll_method: Option<ScrollMethod>,
    pub click_method: Option<ClickMethod>,
    pub accel_profile: Option<AccelProfile>,
}

/// A device's defaults. Those that may be absent are where the device cannot be
/// set.
#[derive(Clone, Copy, Debug, PartialEq, Eq, Structural)]
pub struct DeviceDefaults {
    pub tap_to_click: bool,
    pub tap_and_drag: bool,
    pub drag_lock: DragLock,
    pub natural_scroll: bool,
    pub scroll_button: u32,
    pub accel_speed_bits: u64,
    pub disable_while_typing: bool,
    pub left_handed: bool,
    pub middle_emulation: bool,
    pub tap_button_map: Option<TapButtonMap>,
    pub scroll_method: Option<ScrollMethod>,
    pub click_method: Option<ClickMethod>,
    pub accel_profile: Option<AccelProfile>,
}

/// What a device is set to. Nothing is set where a field is absent.
#[derive(Clone, Copy, Debug, PartialEq, Eq, Structural)]
pub struct DeviceSettings {
    pub tap_to_click: bool,
    pub tap_and_drag: bool,
    pub drag_lock: DragLock,
    pub natural_scroll: bool,
    pub scroll_button: u32,
    pub accel_speed_bits: u64,
    pub disable_while_typing: bool,
    pub left_handed: bool,
    pub middle_emulation: bool,
    pub tap_button_map: Option<TapButtonMap>,
    pub scroll_method: Option<ScrollMethod>,
    pub click_method: Option<ClickMethod>,
    pub accel_profile: Option<AccelProfile>,
}

/// The configured value, or else the default.
pub open spec fn or_default<T>(configured: Option<T>, default_value: T) -> T {
    match configured {
        Some(v) => v,
        None => default_value,
    }
}

/// The configured value, or else the default where there is one.
pub open spec fn or_absent<T>(configured: Option<T>, default_value: Option<T>) -> Option<T> {
    match configured {
        Some(v) => Some(v),
        None => default_value,
    }
}

/// What a device is set to.
pub open spec fn settings_of(cfg: InputSettings, device: DeviceDefaults) -> DeviceSettings {
    DeviceSettings {
        tap_to_click: or_default(cfg.tap_to_click, device.tap_to_click),
        tap_and_drag: or_default(cfg.tap_and_drag, device.tap_and_drag),
        drag_lock: match cfg.drag_lock {
            Some(true) => DragLock::EnabledTimeout,
            Some(false) => DragLock::Disabled,
            None => device.drag_lock,
        },
        natural_scroll: or_default(cfg.natural_scroll, device.natural_scroll),
        scroll_button: or_default(cfg.scroll_button, device.scroll_button),
        accel_speed_bits: or_default(cfg.accel_speed_bits, device.accel_speed_bits),
        disable_while_typing: or_default(cfg.disable_while_typing, device.disable_while_typing),
        left_handed: or_default(cfg.left_handed, device.left_handed),
        middle_emulation: or_default(cfg.middle_emulation, device.middle_emulation),
        tap_button_map: or_absent(cfg.tap_button_map, device.tap_button_map),
        scroll_method: or_absent(cfg.scroll_method, device.scroll_method),
        click_method: or_absent(cfg.click_method, device.click_method),
        accel_profile: or_absent(cfg.accel_profile, device.accel_profile),
    }
}

/// A setting that is not configured, or is not any more, is the device's own.
pub proof fn law_absent_means_default(cfg: InputSettings, device: DeviceDefaults)
    ensures
        cfg.tap_to_click is None ==> settings_of(cfg, device).tap_to_click == device.tap_to_click,
        cfg.tap_and_drag is None ==> settings_of(cfg, device).tap_and_drag == device.tap_and_drag,
        cfg.drag_lock is None ==> settings_of(cfg, device).drag_lock == device.drag_lock,
        cfg.natural_scroll is None ==> settings_of(cfg, device).natural_scroll == device.natural_scroll,
        cfg.scroll_button is None ==> settings_of(cfg, device).scroll_button == device.scroll_button,
        cfg.accel_speed_bits is None ==> settings_of(cfg, device).accel_speed_bits == device.accel_speed_bits,
        cfg.disable_while_typing is None ==> settings_of(cfg, device).disable_while_typing == device.disable_while_typing,
        cfg.left_handed is None ==> settings_of(cfg, device).left_handed == device.left_handed,
        cfg.middle_emulation is None ==> settings_of(cfg, device).middle_emulation == device.middle_emulation,
        cfg.tap_button_map is None ==> settings_of(cfg, device).tap_button_map == device.tap_button_map,
        cfg.scroll_method is None ==> settings_of(cfg, device).scroll_method == device.scroll_method,
        cfg.click_method is None ==> settings_of(cfg, device).click_method == device.click_method,
        cfg.accel_profile is None ==> settings_of(cfg, device).accel_profile == device.accel_profile,
{
}

fn flag(configured: Option<bool>, default_value: bool) -> (r: bool)
    ensures
        r == or_default(configured, default_value),
{
    match configured {
        Some(v) => v,
        None => default_value,
    }
}

/// What a device is set to: each setting as configured, or else the device's
/// default, so that a setting that was taken out is undone.
pub fn apply(cfg: &InputSettings, device: &DeviceDefaults) -> (r: DeviceSettings)
    ensures
        r == settings_of(*cfg, *device),
{
    DeviceSettings {
        tap_to_click: flag(cfg.tap_to_click, device.tap_to_click),
        tap_and_drag: flag(cfg.tap_and_drag, device.tap_and_drag),
        drag_lock: match cfg.drag_lock {
            Some(true) => DragLock::EnabledTimeout,
            Some(false) => DragLock::Disabled,
            None => device.drag_lock,
        },
        natural_scroll: flag(cfg.natural_scroll, device.natural_scroll),
        scroll_button: match cfg.scroll_button {
            Some(b) => b,
            None => device.scroll_button,
        },
        accel_speed_bits: match cfg.accel_speed_bits {
            Some(s) => s,
            None => device.accel_speed_bits,
        },
        disable_while_typing: flag(cfg.disable_while_typing, device.disable_while_typing),
        left_handed: flag(cfg.left_handed, device.left_handed),
        middle_emulation: flag(cfg.middle_emulation, device.middle_emulation),
        tap_button_map: match cfg.tap_button_map {
            Some(m) => Some(m),
            None => device.tap_button_map,
        },
        scroll_method: match cfg.scroll_method {
            Some(m) => Some(m),
            None => device.scroll_method,
        },
        click_method: match cfg.click_method {
            Some(m) => Some(m),
            None => device.click_method,
        },
        accel_profile: match cfg.accel_profile {
            Some(p) => Some(p),
            None => device.accel_profile,
        },
    }
}

impl ShoestringWm {
    /// What every device is set to after the configuration has changed, in order.
    pub fn reapply_input_config(&self, devices: &Vec<(u64, DeviceDefaults)>) -> (r: Vec<
        (u64, DeviceSettings),
    >)
        ensures
            r@ == devices@.map_values(
                |d: (u64, DeviceDefaults)| (d.0, settings_of(self.config.input, d.1)),
            ),
    {
        let mut r: Vec<(u64, DeviceSettings)> = Vec::new();
        let ghost f = |d: (u64, DeviceDefaults)| (d.0, settings_of(self.config.input, d.1));
        let mut i: usize = 0;
        while i < devices.len()
            invariant
                i <= devices@.len(),
                f == (|d: (u64, DeviceDefaults)| (d.0, settings_of(self.config.input, d.1))),
                r@ == devices@.take(i as int).map_values(f),
            decreases devices@.len() - i,
        {
            r.push((devices[i].0, apply(&self.config.input, &devices[i].1)));
            i += 1;
            assert(r@ =~= devices@.take(i as int).map_values(f));
        }
        assert(devices@.take(i as int) =~= devices@);
        r
    }
}

/// A setting that is configured is in effect, whatever the device's own is; a drag lock
/// that is on is one that times out.
pub proof fn law_configured_is_in_effect(cfg: InputSettings, device: DeviceDefaults)
    ensures
        ({
            let s = settings_of(cfg, device);
            &&& cfg.tap_to_click matches Some(v) ==> s.tap_to_click == v
            &&& cfg.tap_and_drag matches Some(v) ==> s.tap_and_drag == v
            &&& cfg.drag_lock == Some(true) ==> s.drag_lock is EnabledTimeout
            &&& cfg.drag_lock == Some(false) ==> s.drag_lock is Disabled
            &&& cfg.natural_scroll matches Some(v) ==> s.natural_scroll == v
            &&& cfg.scroll_button matches Some(v) ==> s.scroll_button == v
            &&& cfg.accel_speed_bits matches Some(v) ==> s.accel_speed_bits == v
            &&& cfg.disable_while_typing matches Some(v) ==> s.disable_while_typing == v
            &&& cfg.left_handed matches Some(v) ==> s.left_handed == v
            &&& cfg.middle_emulation matches Some(v) ==> s.middle_emulation == v
            &&& cfg.tap_button_map is Some ==> s.tap_button_map == cfg.tap_button_map
            &&& cfg.scroll_method is Some ==> s.scroll_method == cfg.scroll_method
            &&& cfg.click_method is Some ==> s.click_method == cfg.click_method
            &&& cfg.accel_profile is Some ==> s.accel_profile == cfg.accel_profile
        }),
{
}

} // verus!
