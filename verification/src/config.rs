//! The parts of the configuration that the rules read.

use vstd::prelude::*;

use crate::input_config::InputSettings;
use crate::text::clone_strings;
use crate::text::str_eq;

verus! {

/// What a key binding or a client can ask the manager to do.
#[derive(Debug)]
pub enum Action {
    Spawn { command: String, args: Vec<String> },
    Quit,
    ReloadConfig,
    TileLeft,
    TileRight,
    Maximize,
    Minimize,
    Unminimize,
    Close,
    CycleWindows,
    Raise,
    Lower,
    ToggleSticky,
    ToggleAlwaysOnTop,
    FocusWorkspace { index: u8 },
    FocusWorkspaceRelative { delta: i8 },
    MoveWindowToWorkspace { index: u8 },
    MoveWindowToWorkspaceRelative { delta: i8 },
    ChangeVt { vt: u8 },
    InjectKey { keysym: String },
    InjectText { text: String },
    InjectClick { button: String },
    Lock,
    CycleLayout,
    ToggleAudioMute,
    ToggleMicMute,
}

/// Whether two actions ask for the same thing.
pub open spec fn same_action(a: Action, b: Action) -> bool {
    match (a, b) {
        (
            Action::Spawn { command: c1, args: a1 },
            Action::Spawn { command: c2, args: a2 },
        ) => c1@ == c2@ && a1@ == a2@,
        (Action::InjectKey { keysym: x }, Action::InjectKey { keysym: y }) => x@ == y@,
        (Action::InjectText { text: x }, Action::InjectText { text: y }) => x@ == y@,
        (Action::InjectClick { button: x }, Action::InjectClick { button: y }) => x@ == y@,
        _ => a == b,
    }
}

/// A copy of an action.
pub fn clone_action(a: &Action) -> (r: Action)
    ensures
        same_action(*a, r),
{
    match a {
        Action::Spawn { command, args } => Action::Spawn {
            command: command.clone(),
            args: clone_strings(args),
        },
        Action::Quit => Action::Quit,
        Action::ReloadConfig => Action::ReloadConfig,
        Action::TileLeft => Action::TileLeft,
        Action::TileRight => Action::TileRight,
        Action::Maximize => Action::Maximize,
        Action::Minimize => Action::Minimize,
        Action::Unminimize => Action::Unminimize,
        Action::Close => Action::Close,
        Action::CycleWindows => Action::CycleWindows,
        Action::Raise => Action::Raise,
        Action::Lower => Action::Lower,
        Action::ToggleSticky => Action::ToggleSticky,
        Action::ToggleAlwaysOnTop => Action::ToggleAlwaysOnTop,
        Action::FocusWorkspace { index } => Action::FocusWorkspace { index: *index },
        Action::FocusWorkspaceRelative { delta } => Action::FocusWorkspaceRelative {
            delta: *delta,
        },
        Action::MoveWindowToWorkspace { index } => Action::MoveWindowToWorkspace {
            index: *index,
        },
        Action::MoveWindowToWorkspaceRelative { delta } => Action::MoveWindowToWorkspaceRelative {
            delta: *delta,
        },
        Action::ChangeVt { vt } => Action::ChangeVt { vt: *vt },
        Action::InjectKey { keysym } => Action::InjectKey { keysym: keysym.clone() },
        Action::InjectText { text } => Action::InjectText { text: text.clone() },
        Action::InjectClick { button } => Action::InjectClick { button: button.clone() },
        Action::Lock => Action::Lock,
        Action::CycleLayout => Action::CycleLayout,
        Action::ToggleAudioMute => Action::ToggleAudioMute,
        Action::ToggleMicMute => Action::ToggleMicMute,
    }
}

/// When the keyboard focus follows the pointer.
#[derive(Clone, Copy, Debug, PartialEq, Eq, Structural)]
pub enum FocusMode {
    ClickToFocus,
    FollowsMouse,
    Sloppy,
}

/// The settings that the rules read.
#[derive(Debug)]
pub struct Config {
    pub focus_mode: FocusMode,
    /// The command that locks the session, with its arguments.
    pub lock_command: String,
    /// How many wheel notches over the desktop switch the workspace.
    pub desktop_scroll_notches: u32,
    pub diagnostics_enabled: bool,
    pub sample_interval_ms: u64,
    pub xkb: XkbSettings,
    /// The thickness of window borders, in pixels; zero for none.
    pub border_width: u32,
    pub input: InputSettings,
}

/// The names that a keymap is built from.
#[derive(Debug)]
pub struct XkbSettings {
    pub layout: String,
    pub variant: String,
    pub options: Option<String>,
    pub rules: String,
    pub model: String,
}

/// Whether two settings name the same keymap.
pub open spec fn same_xkb(a: XkbSettings, b: XkbSettings) -> bool {
    &&& a.layout@ == b.layout@
    &&& a.variant@ == b.variant@
    &&& crate::text::opt_view(a.options) == crate::text::opt_view(b.options)
    &&& a.rules@ == b.rules@
    &&& a.model@ == b.model@
}

/// Whether two settings name different keymaps.
pub fn xkb_changed(a: &XkbSettings, b: &XkbSettings) -> (r: bool)
    ensures
        r == !same_xkb(*a, *b),
{
    let same_options = match (&a.options, &b.options) {
        (Some(x), Some(y)) => str_eq(x.as_str(), y.as_str()),
        (None, None) => true,
        _ => false,
    };
    !(str_eq(a.layout.as_str(), b.layout.as_str()) && str_eq(
        a.variant.as_str(),
        b.variant.as_str(),
    ) && same_options && str_eq(a.rules.as_str(), b.rules.as_str()) && str_eq(
        a.model.as_str(),
        b.model.as_str(),
    ))
}

/// Two actions are the same only where they ask for the same thing with the same
/// words and numbers, and every action is the same as itself.
pub proof fn law_same_action(a: Action, b: Action)
    ensures
        same_action(a, a),
        same_action(a, b) ==> same_action(b, a),
        same_action(a, b) ==> {
            &&& a is Spawn <==> b is Spawn
            &&& a is Quit <==> b is Quit
            &&& a is ReloadConfig <==> b is ReloadConfig
            &&& a is TileLeft <==> b is TileLeft
            &&& a is TileRight <==> b is TileRight
            &&& a is Maximize <==> b is Maximize
            &&& a is Minimize <==> b is Minimize
            &&& a is Unminimize <==> b is Unminimize
            &&& a is Close <==> b is Close
            &&& a is CycleWindows <==> b is CycleWindows
            &&& a is Raise <==> b is Raise
            &&& a is Lower <==> b is Lower
            &&& a is ToggleSticky <==> b is ToggleSticky
            &&& a is ToggleAlwaysOnTop <==> b is ToggleAlwaysOnTop
            &&& a is Lock <==> b is Lock
            &&& a is CycleLayout <==> b is CycleLayout
            &&& a is ToggleAudioMute <==> b is ToggleAudioMute
            &&& a is ToggleMicMute <==> b is ToggleMicMute
            &&& a matches Action::FocusWorkspace { index } ==> b == (Action::FocusWorkspace {
                index,
            })
            &&& a matches Action::FocusWorkspaceRelative { delta } ==> b == (
            Action::FocusWorkspaceRelative { delta })
            &&& a matches Action::MoveWindowToWorkspace { index } ==> b == (
            Action::MoveWindowToWorkspace { index })
            &&& a matches Action::MoveWindowToWorkspaceRelative { delta } ==> b == (
            Action::MoveWindowToWorkspaceRelative { delta })
            &&& a matches Action::ChangeVt { vt } ==> b == (Action::ChangeVt { vt })
            &&& a matches Action::Spawn { command, args } ==> (b matches Action::Spawn {
                command: c,
                args: d,
            } && c@ == command@ && d@ == args@)
            &&& a matches Action::InjectKey { keysym } ==> (b matches Action::InjectKey {
                keysym: k,
            } && k@ == keysym@)
            &&& a matches Action::InjectText { text } ==> (b matches Action::InjectText { text: t }
                && t@ == text@)
            &&& a matches Action::InjectClick { button } ==> (b matches Action::InjectClick {
                button: k,
            } && k@ == button@)
        },
{
}

/// A keymap is the same exactly where none of its five names differs.
pub proof fn law_keymap_names(a: XkbSettings, b: XkbSettings)
    ensures
        same_xkb(a, a),
        a.layout@ != b.layout@ ==> !same_xkb(a, b),
        a.variant@ != b.variant@ ==> !same_xkb(a, b),
        a.rules@ != b.rules@ ==> !same_xkb(a, b),
        a.model@ != b.model@ ==> !same_xkb(a, b),
        a.options is Some != b.options is Some ==> !same_xkb(a, b),
        a.options is Some && b.options is Some && a.options->0@ != b.options->0@ ==> !same_xkb(a, b),
{
}

} // verus!
