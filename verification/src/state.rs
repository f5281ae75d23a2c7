//! The state of the window manager.

use vstd::prelude::*;

use crate::binds::BindingTable;
use crate::clipboard::ClipboardBroker;
use crate::config::Config;
use crate::config_watcher::ConfigWatcher;
use crate::confirm::PendingConfirm;
use crate::desktop::Desktop;
use crate::diag_overlay::DiagOverlay;
use crate::drawing::CursorImageStatus;
use crate::drawing::PointerElement;
use crate::ext_screencopy::ExtScreencopyState;
use crate::ext_workspace::ExtWorkspaceState;
use crate::foreign_toplevel_mgmt::ForeignToplevelMgmtState;
use crate::gamma_control::GammaControlState;
use crate::handlers::inhibit::CursorHint;
use crate::handlers::output_management::OutputManagementState;
use crate::handlers::session_lock::LockState;
use crate::inject::KeyLevels;
use crate::inject::KeyStep;
use crate::input::KeyRepeat;
use crate::ipc::Server;

verus! {

/// The window manager: what it knows of the desktop, and what its handlers keep
/// from one event to the next.
#[derive(Debug)]
pub struct ShoestringWm {
    pub desktop: Desktop,
    pub bindings: BindingTable,
    /// The keys of the active keymap, in ascending order of their keycodes.
    pub keymap: Vec<KeyLevels>,
    /// Key events that wait to be sent.
    pub key_queue: Vec<KeyStep>,
    pub config: Config,
    /// The file that the configuration was read from.
    pub config_path: Option<String>,
    /// What watches the file, while something does.
    pub config_watcher: Option<ConfigWatcher>,
    /// The timer that will read the file anew.
    pub pending_reload_token: Option<u64>,
    /// The question that the user is asked.
    pub pending_confirm: Option<PendingConfirm>,
    pub clipboard: ClipboardBroker,
    /// The windows that a border was drawn for.
    pub window_borders: Vec<u64>,
    pub diag_overlay: DiagOverlay,
    pub ext_screencopy: ExtScreencopyState,
    /// The frames that wait to be copied into memory.
    pub screencopy_pending: Vec<u64>,
    pub output_management: OutputManagementState,
    /// The surfaces whose clients want no idleness.
    pub idle_inhibitors: Vec<u64>,
    /// What keeps the manager from taking key combinations.
    pub active_shortcuts_inhibitor: Option<u64>,
    /// The pointer's picture.
    pub pointer_element: PointerElement,
    /// Where a client that holds the pointer says that it draws it.
    pub cursor_hint: Option<CursorHint>,
    /// The windows that are put in the middle once their size is known.
    pub pending_initial_center: Vec<u64>,
    /// The windows that the rules were applied to.
    pub rules_applied: Vec<u64>,
    /// The binding that repeats while its key is held.
    pub key_repeat: Option<KeyRepeat>,
    /// The session lock, while one is up.
    pub lock_session: Option<LockState>,
    /// The client that waits for the user to pick a window.
    pub pending_picker: Option<u64>,
    /// Whether clients are told of idleness.
    pub idle_notifier: bool,
    /// The window that a move grab drags.
    pub edge_drag_window: Option<u64>,
    /// The timer that runs while it rests at the edge of the desktop.
    pub edge_drag_repeat_token: Option<u64>,
    /// Wheel travel over the desktop that has not switched a workspace yet.
    pub desktop_scroll_accum: i64,
    /// Whether scripts may act for the user.
    pub automation_enabled: bool,
    /// Whether the screen may be captured.
    pub screen_capture_enabled: bool,
    /// The socket's connections, while it is open.
    pub ipc: Option<Server>,
    /// The clients that follow the workspaces.
    pub ext_workspace: ExtWorkspaceState,
    /// The outputs whose gamma is set.
    pub gamma_control: GammaControlState,
    /// The taskbars and the windows that they know.
    pub foreign_toplevel_mgmt: ForeignToplevelMgmtState,
}

impl ShoestringWm {
    /// The manager as it starts, with a desktop, bindings and a configuration.
    /// Nothing is under way, no client is known, and the gates are closed.
    pub fn new(desktop: Desktop, bindings: BindingTable, config: Config) -> (r: Self)
        ensures
            r.desktop == desktop,
            r.bindings == bindings,
            r.config == config,
            r.keymap@.len() == 0,
            r.key_queue@.len() == 0,
            r.config_path is None,
            r.config_watcher is None,
            r.pending_reload_token is None,
            r.pending_confirm is None,
            r.clipboard.clipboard.mimes@.len() == 0,
            r.clipboard.clipboard.cache@.len() == 0,
            r.clipboard.primary.mimes@.len() == 0,
            r.clipboard.primary.cache@.len() == 0,
            r.clipboard.pending_reads@ == Map::<u64, crate::clipboard::ClipboardRead>::empty(),
            r.clipboard.next_read_id == 0,
            r.window_borders@.len() == 0,
            !r.diag_overlay.enabled,
            r.ext_screencopy.sessions@.len() == 0,
            r.ext_screencopy.pending@.len() == 0,
            r.screencopy_pending@.len() == 0,
            r.output_management.serial == 0,
            r.output_management.managers@.len() == 0,
            r.idle_inhibitors@.len() == 0,
            r.active_shortcuts_inhibitor is None,
            r.pointer_element == (PointerElement { buffer: None, status: CursorImageStatus::Named }),
            r.cursor_hint is None,
            r.pending_initial_center@.len() == 0,
            r.rules_applied@.len() == 0,
            r.key_repeat is None,
            r.lock_session is None,
            r.pending_picker is None,
            !r.idle_notifier,
            r.edge_drag_window is None,
            r.edge_drag_repeat_token is None,
            r.desktop_scroll_accum == 0,
            !r.automation_enabled,
            !r.screen_capture_enabled,
            r.ipc is None,
            r.ext_workspace.instances@.len() == 0,
            r.gamma_control.wf(),
            r.gamma_control.controls@.len() == 0,
            r.foreign_toplevel_mgmt.wf(),
            r.foreign_toplevel_mgmt.managers@.len() == 0,
            r.foreign_toplevel_mgmt.windows@.len() == 0,
    {
        ShoestringWm {
            desktop,
            bindings,
            keymap: Vec::new(),
            key_queue: Vec::new(),
            config,
            config_path: None,
            config_watcher: None,
            pending_reload_token: None,
            pending_confirm: None,
            clipboard: ClipboardBroker::new(),
            window_borders: Vec::new(),
            diag_overlay: DiagOverlay::default(),
            ext_screencopy: ExtScreencopyState::new(),
            screencopy_pending: Vec::new(),
            output_management: OutputManagementState { serial: 0, managers: Vec::new() },
            idle_inhibitors: Vec::new(),
            active_shortcuts_inhibitor: None,
            pointer_element: PointerElement::default(),
            cursor_hint: None,
            pending_initial_center: Vec::new(),
            rules_applied: Vec::new(),
            key_repeat: None,
            lock_session: None,
            pending_picker: None,
            idle_notifier: false,
            edge_drag_window: None,
            edge_drag_repeat_token: None,
            desktop_scroll_accum: 0,
            automation_enabled: false,
            screen_capture_enabled: false,
            ipc: None,
            ext_workspace: ExtWorkspaceState { instances: Vec::new() },
            gamma_control: GammaControlState { controls: Vec::new() },
            foreign_toplevel_mgmt: ForeignToplevelMgmtState::new(),
        }
    }
}

} // verus!
