//! The manager's state: keys, the pointer, actions, locking, questions.

use std::collections::HashMap;

use shoestring_wm::handlers::compositor::CommitStep;
use shoestring_wm::binds::Binding;
use shoestring_wm::binds::BindingTable;
use shoestring_wm::binds::ModifiersState;
use shoestring_wm::clipboard::AskOutcome;
use shoestring_wm::clipboard::AskPlan;
use shoestring_wm::clipboard::ClipboardReply;
use shoestring_wm::clipboard::GetPlan;
use shoestring_wm::clipboard::SelectionTarget;
use shoestring_wm::config::Action;
use shoestring_wm::config::Config;
use shoestring_wm::config::FocusMode;
use shoestring_wm::config::XkbSettings;
use shoestring_wm::config_watcher::ChangeKind;
use shoestring_wm::config_watcher::ConfigWatcher;
use shoestring_wm::config_watcher::Loaded;
use shoestring_wm::confirm::ConfirmEnd;
use shoestring_wm::confirm::HelperExit;
use shoestring_wm::confirm::HelperFate;
use shoestring_wm::confirm::HelperStart;
use shoestring_wm::confirm::OnAccept;
use shoestring_wm::desktop::Desktop;
use shoestring_wm::desktop::Toplevel;
use shoestring_wm::desktop::Workspaces;
use shoestring_wm::diag_overlay::wallpaper_dims;
use shoestring_wm::diag_overlay::MetricValue;
use shoestring_wm::drawing::output_space_elements;
use shoestring_wm::drawing::CursorImageStatus;
use shoestring_wm::drawing::PointerPicture;
use shoestring_wm::drawing::SpaceElements;
use shoestring_wm::focus::KeyboardFocusTarget;
use shoestring_wm::geometry::rect;
use shoestring_wm::geometry::Point;
use shoestring_wm::geometry::Size;
use shoestring_wm::grabs::move_grab::Coord;
use shoestring_wm::grabs::resize_grab::ResizeEdge;
use shoestring_wm::grabs::resize_grab::X11Edge;
use shoestring_wm::handlers::compositor::waits_for_acquire;
use shoestring_wm::handlers::inhibit::dnd_requested;
use shoestring_wm::handlers::inhibit::CursorHint;
use shoestring_wm::handlers::inhibit::DragSource;
use shoestring_wm::handlers::session_lock::LockOutcome;
use shoestring_wm::inject::ClickFocus;
use shoestring_wm::inject::InjectError;
use shoestring_wm::inject::KeyLevels;
use shoestring_wm::inject::KeyStep;
use shoestring_wm::input::Command;
use shoestring_wm::input::InputEvent;
use shoestring_wm::input::InputPlan;
use shoestring_wm::input::KeyVerdict;
use shoestring_wm::input::MotionInput;
use shoestring_wm::input::PointerSpot;
use shoestring_wm::input::ScrollInput;
use shoestring_wm::input::ScrollSource;
use shoestring_wm::input::ToolAxes;
use shoestring_wm::input_config::apply;
use shoestring_wm::input_config::AccelProfile;
use shoestring_wm::input_config::DeviceDefaults;
use shoestring_wm::input_config::DragLock;
use shoestring_wm::input_config::InputSettings;
use shoestring_wm::input_config::ScrollMethod;
use shoestring_wm::ipc::ClientId;
use shoestring_wm::ipc::Server;
use shoestring_wm::layout::LayoutManager;
use shoestring_wm::layout::OutputArea;
use shoestring_wm::layout::Placed;
use shoestring_wm::layout::Space;
use shoestring_wm::layout::Window;
use shoestring_wm::pointer::workspace_bounds;
use shoestring_wm::pointer::AxisInput;
use shoestring_wm::pointer::ButtonPlan;
use shoestring_wm::pointer::ButtonPress;
use shoestring_wm::pointer::Constraint;
use shoestring_wm::pointer::DragKind;
use shoestring_wm::pointer::NOTCH;
use shoestring_wm::state::ShoestringWm;

const KEY_H: u32 = 0x68;
const KEY_Q: u32 = 0x71;
const KEY_F1: u32 = 0xffbe;
const ESCAPE: u32 = 0xff1b;
const LEFT: u32 = 0x110;
const RIGHT: u32 = 0x111;

fn settings() -> InputSettings {
    InputSettings {
        tap_to_click: None,
        tap_and_drag: None,
        drag_lock: None,
        natural_scroll: None,
        scroll_button: None,
        accel_speed_bits: None,
        disable_while_typing: None,
        left_handed: None,
        middle_emulation: None,
        tap_button_map: None,
        scroll_method: None,
        click_method: None,
        accel_profile: None,
    }
}

fn config() -> Config {
    Config {
        focus_mode: FocusMode::ClickToFocus,
        lock_command: "shoestring-lock  --maze".to_string(),
        desktop_scroll_notches: 1,
        diagnostics_enabled: false,
        sample_interval_ms: 1000,
        xkb: XkbSettings {
            layout: "us".to_string(),
            variant: String::new(),
            options: None,
            rules: String::new(),
            model: String::new(),
        },
        border_width: 2,
        input: settings(),
    }
}

fn win(id: u64) -> Window {
    Window {
        id,
        size: Size { w: 400, h: 300 },
    }
}

fn placed(id: u64, x: i32) -> Placed {
    Placed {
        window: win(id),
        loc: Point { x, y: 100 },
        outputs: vec![1],
    }
}

/// Two windows on one output, the upper one with the focus, and four workspaces.
fn wm() -> ShoestringWm {
    let desktop = Desktop {
        space: Space {
            elements: vec![placed(7, 100), placed(8, 200)],
            outputs: vec![OutputArea {
                id: 1,
                geometry: Some(rect(0, 0, 1920, 1080)),
                zone: rect(0, 0, 1920, 1080),
            }],
        },
        layout: LayoutManager::new(),
        outputs: Vec::new(),
        toplevels: vec![Toplevel {
            window: win(8),
            handle: "id-8".to_string(),
            title: "shell".to_string(),
            app_id: "term".to_string(),
            sticky: false,
        }],
        focused: Some(win(8)),
        name_overrides: HashMap::new(),
        workspaces: Workspaces {
            active: 2,
            count: 4,
            names: Vec::new(),
            assigned: vec![(7, 2), (8, 2)],
        },
    };
    let bindings = vec![
        Binding {
            mods: vec!["Super".to_string()],
            key: "h".to_string(),
            action: Action::FocusWorkspaceRelative { delta: -1 },
        },
        Binding {
            mods: vec!["Super".to_string(), "Shift".to_string()],
            key: "q".to_string(),
            action: Action::Quit,
        },
        Binding {
            mods: vec!["Ctrl".to_string(), "Alt".to_string()],
            key: "F1".to_string(),
            action: Action::ChangeVt { vt: 1 },
        },
    ];
    let (table, warnings) = BindingTable::compile(&bindings, &vec![KEY_H, KEY_Q, KEY_F1]);
    assert!(warnings.is_empty());
    ShoestringWm::new(desktop, table, config())
}

fn mods(ctrl: bool, alt: bool, shift: bool, logo: bool) -> ModifiersState {
    ModifiersState {
        ctrl,
        alt,
        shift,
        logo,
    }
}

#[test]
fn bound_key_acts_and_unbound_key_passes() {
    let mut m = wm();
    let out = m.on_key(35, true, Some(KEY_H), &mods(false, false, false, true));
    assert!(matches!(
        out.verdict,
        KeyVerdict::Act(Action::FocusWorkspaceRelative { delta: -1 })
    ));
    let plain = m.on_key(35, true, Some(KEY_H), &mods(false, false, false, false));
    assert!(matches!(plain.verdict, KeyVerdict::Forward));
    let up = m.on_key(35, false, Some(KEY_H), &mods(false, false, false, true));
    assert!(matches!(up.verdict, KeyVerdict::Forward));
}

#[test]
fn locked_session_keeps_only_terminal_switches() {
    let mut m = wm();
    assert!(matches!(
        m.lock(50, None),
        LockOutcome::Locked {
            cancelled_picker: None
        }
    ));
    let quit = m.on_key(24, true, Some(KEY_Q), &mods(false, false, true, true));
    assert!(matches!(quit.verdict, KeyVerdict::Forward));
    let vt = m.on_key(67, true, Some(KEY_F1), &mods(true, true, false, false));
    assert!(matches!(
        vt.verdict,
        KeyVerdict::Act(Action::ChangeVt { vt: 1 })
    ));
    assert!(matches!(m.lock(51, None), LockOutcome::Rejected));
    assert!(matches!(m.spawn_lock(), Command::Nothing));
}

#[test]
fn picking_swallows_keys_and_escape_ends_it() {
    let mut m = wm();
    m.pending_picker = Some(4);
    let any = m.on_key(24, true, Some(KEY_Q), &mods(false, false, true, true));
    assert!(matches!(any.verdict, KeyVerdict::Swallow { cancel: false }));
    let esc = m.on_key(9, true, Some(ESCAPE), &mods(false, false, false, false));
    assert!(matches!(esc.verdict, KeyVerdict::Swallow { cancel: true }));
    let up = m.on_key(9, false, Some(ESCAPE), &mods(false, false, false, false));
    assert!(matches!(up.verdict, KeyVerdict::Swallow { cancel: false }));
}

#[test]
fn repeat_ends_with_its_key() {
    let mut m = wm();
    let action = Action::FocusWorkspaceRelative { delta: -1 };
    assert_eq!(m.start_key_repeat(35, &action, Some(90)), None);
    assert!(matches!(
        m.tick_key_repeat(),
        Some(Action::FocusWorkspaceRelative { delta: -1 })
    ));
    // Another key's release leaves it.
    let other = m.on_key(36, false, None, &mods(false, false, false, false));
    assert_eq!(other.stop, None);
    let own = m.on_key(35, false, None, &mods(false, false, false, false));
    assert_eq!(own.stop, Some(90));
    assert!(m.tick_key_repeat().is_none());
    assert_eq!(m.cancel_key_repeat(), None);
}

#[test]
fn actions_become_commands() {
    let mut m = wm();
    let alive = vec![7, 8];
    assert!(matches!(
        m.dispatch_action(&Action::FocusWorkspaceRelative { delta: -1 }, &alive),
        Command::FocusWorkspace(1)
    ));
    assert!(matches!(
        m.dispatch_action(&Action::FocusWorkspaceRelative { delta: 9 }, &alive),
        Command::FocusWorkspace(4)
    ));
    assert!(matches!(
        m.dispatch_action(&Action::FocusWorkspace { index: 5 }, &alive),
        Command::Nothing
    ));
    assert!(matches!(
        m.dispatch_action(&Action::Quit, &alive),
        Command::ConfirmQuit
    ));
    assert!(matches!(
        m.dispatch_action(&Action::CycleWindows, &alive),
        Command::Focus(7)
    ));
    assert!(matches!(
        m.dispatch_action(&Action::Close, &alive),
        Command::Close(8)
    ));
    match m.dispatch_action(&Action::Lock, &alive) {
        Command::Spawn { command, args } => {
            assert_eq!(command, "shoestring-lock");
            assert_eq!(args, vec!["--maze".to_string()]);
        }
        other => panic!("{other:?}"),
    }
    match m.dispatch_action(&Action::ToggleMicMute, &alive) {
        Command::Media { subject, verb } => assert_eq!((subject, verb), ("mic-mute", "toggle")),
        other => panic!("{other:?}"),
    }
}

#[test]
fn minimize_hides_and_shows_again() {
    let mut m = wm();
    match m.dispatch_action(&Action::Minimize, &vec![7, 8]) {
        Command::Hide(h) => {
            assert_eq!(h.window, 8);
            assert!(h.clear_focus);
        }
        other => panic!("{other:?}"),
    }
    assert!(m.desktop.layout.is_minimized(8));
    // Once it is put away, the same key brings it back.
    m.desktop.space.elements.retain(|p| p.window.id != 8);
    m.desktop.focused = None;
    match m.dispatch_action(&Action::Minimize, &vec![7, 8]) {
        Command::Show(s) => {
            assert_eq!(s.window, 8);
            assert_eq!(s.loc, Point { x: 200, y: 100 });
            assert_eq!(s.workspace, 2);
        }
        other => panic!("{other:?}"),
    }
    assert!(!m.desktop.layout.is_minimized(8));
}

#[test]
fn hidden_windows_leave_their_workspace_and_return_last_first() {
    let mut m = wm();
    assert!(m.minimize_window(win(7)).is_some());
    assert!(m.minimize_window(win(8)).is_some());
    assert!(m.minimize_window(win(8)).is_none());
    assert!(m.desktop.workspaces.assigned.is_empty());
    let (_, _, minimized) = m.desktop.collect_tree();
    assert_eq!(minimized.len(), 1);
    assert_eq!(minimized[0].id, "id-8");
    assert_eq!(m.unminimize_last(&vec![7, 8]).unwrap().window, 8);
    assert_eq!(m.unminimize_last(&vec![7, 8]).unwrap().window, 7);
    assert!(m.unminimize_last(&vec![7, 8]).is_none());
    assert_eq!(m.desktop.workspaces.assigned, vec![(8, 2), (7, 2)]);
    let (_, listed, hidden) = m.desktop.collect_tree();
    assert!(hidden.is_empty());
    assert_eq!((listed.len(), listed[0].index), (1, 2));
    assert_eq!(listed[0].windows[0].id, "id-8");
}

#[test]
fn going_round_needs_two_windows() {
    let mut m = wm();
    assert_eq!(m.cycle_windows(), Some(7));
    m.desktop.space.elements.truncate(1);
    assert_eq!(m.cycle_windows(), None);
}

#[test]
fn going_round_comes_back() {
    let mut m = wm();
    m.desktop.space.elements = vec![placed(5, 0), placed(6, 10), placed(7, 20)];
    m.desktop.focused = Some(win(7));
    let mut seen = Vec::new();
    for _ in 0..3 {
        let next = m.cycle_windows().unwrap();
        seen.push(next);
        let at = m
            .desktop
            .space
            .elements
            .iter()
            .position(|p| p.window.id == next)
            .unwrap();
        let p = m.desktop.space.elements.remove(at);
        m.desktop.space.elements.push(p);
        m.desktop.focused = Some(win(next));
    }
    assert_eq!(seen, vec![5, 6, 7]);
    let stack: Vec<u64> = m.desktop.space.elements.iter().map(|p| p.window.id).collect();
    assert_eq!(stack, vec![5, 6, 7]);
}

fn spot(window: Option<u64>) -> PointerSpot {
    PointerSpot {
        grabbed: false,
        keyboard_focus: true,
        window,
    }
}

#[test]
fn focus_follows_the_pointer_as_configured() {
    let mut m = wm();
    assert_eq!(m.maybe_pointer_focus(false, true, Some(7)), ClickFocus::Keep);
    m.config.focus_mode = FocusMode::Sloppy;
    assert_eq!(
        m.maybe_pointer_focus(false, true, Some(7)),
        ClickFocus::Focus(7)
    );
    assert_eq!(m.maybe_pointer_focus(false, true, Some(8)), ClickFocus::Keep);
    assert_eq!(m.maybe_pointer_focus(false, true, None), ClickFocus::Keep);
    assert_eq!(m.maybe_pointer_focus(true, true, Some(7)), ClickFocus::Keep);
    m.config.focus_mode = FocusMode::FollowsMouse;
    assert_eq!(m.maybe_pointer_focus(false, true, None), ClickFocus::Clear);
    // A layer surface with the focus keeps it.
    m.desktop.focused = None;
    assert_eq!(m.maybe_pointer_focus(false, true, Some(7)), ClickFocus::Keep);
}

fn press(button: u32, window: Option<u64>, logo: bool) -> ButtonPress {
    ButtonPress {
        button,
        pressed: true,
        grabbed: false,
        window,
        overlay: false,
        surface: window.is_some(),
        logo,
    }
}

#[test]
fn buttons_focus_drag_or_pick() {
    let mut m = wm();
    assert_eq!(
        m.on_button(press(LEFT, Some(7), false)),
        ButtonPlan::Deliver(ClickFocus::Focus(7))
    );
    assert_eq!(
        m.on_button(press(RIGHT, Some(7), true)),
        ButtonPlan::Drag(7)
    );
    assert_eq!(
        m.on_button(press(LEFT, None, false)),
        ButtonPlan::Deliver(ClickFocus::Clear)
    );
    // A menu over the window keeps its focus.
    let covered = ButtonPress {
        overlay: true,
        ..press(LEFT, Some(7), false)
    };
    assert_eq!(m.on_button(covered), ButtonPlan::Deliver(ClickFocus::Keep));
    assert_eq!(
        m.start_super_drag(LEFT, 7, Some(Point { x: 1, y: 2 })),
        Some(DragKind::Move)
    );
    assert_eq!(m.edge_drag_window, Some(7));
    assert_eq!(
        m.start_super_drag(RIGHT, 7, Some(Point { x: 1, y: 2 })),
        Some(DragKind::Resize)
    );
    assert_eq!(m.start_super_drag(LEFT, 7, None), None);
    m.pending_picker = Some(1);
    assert_eq!(
        m.on_button(press(LEFT, Some(7), false)),
        ButtonPlan::EndPicker(Some(7))
    );
    assert_eq!(
        m.on_button(press(RIGHT, Some(7), false)),
        ButtonPlan::EndPicker(None)
    );
    let release = ButtonPress {
        pressed: false,
        ..press(LEFT, Some(7), false)
    };
    assert_eq!(m.on_button(release), ButtonPlan::Swallow);
}

fn scroll(travel: i64, source: ScrollSource) -> ScrollInput {
    ScrollInput {
        source,
        horizontal: AxisInput {
            moved: false,
            discrete: None,
            reported_zero: true,
        },
        vertical: AxisInput {
            moved: true,
            discrete: Some(120),
            reported_zero: false,
        },
        travel,
        grabbed: false,
        surface: false,
    }
}

#[test]
fn wheel_over_the_desktop_switches_workspaces() {
    let mut m = wm();
    let (_, plan) = m.process_input_event(InputEvent::PointerAxis(scroll(
        -NOTCH,
        ScrollSource::Wheel,
    )));
    match plan {
        InputPlan::ScrollDesktop(targets) => assert_eq!(targets, vec![3]),
        other => panic!("{other:?}"),
    }
    assert_eq!(m.desktop_scroll_accum, 0);
    // Half a notch is kept; turning back drops it.
    m.process_input_event(InputEvent::PointerAxis(scroll(
        -NOTCH / 2,
        ScrollSource::Wheel,
    )));
    assert_eq!(m.desktop_scroll_accum, -NOTCH / 2);
    m.process_input_event(InputEvent::PointerAxis(scroll(
        NOTCH / 4,
        ScrollSource::Wheel,
    )));
    assert_eq!(m.desktop_scroll_accum, NOTCH / 4);
    // Far too much travel ends at the last workspace, with nothing left over.
    assert_eq!(m.desktop_scroll(-10 * NOTCH), vec![3, 4]);
    assert_eq!(m.desktop_scroll_accum, 0);
}

#[test]
fn other_scrolling_goes_to_the_client() {
    let mut m = wm();
    let (_, plan) = m.process_input_event(InputEvent::PointerAxis(scroll(
        -NOTCH,
        ScrollSource::Finger,
    )));
    match plan {
        InputPlan::Scroll {
            horizontal,
            vertical,
        } => {
            assert!(!horizontal.send_value && horizontal.stop);
            assert!(vertical.send_value && !vertical.stop);
            assert_eq!(vertical.discrete, Some(120));
        }
        other => panic!("{other:?}"),
    }
    assert_eq!(m.desktop_scroll_accum, 0);
}

#[test]
fn motion_respects_constraints() {
    let mut m = wm();
    let free = MotionInput {
        constraint: None,
        same_surface: false,
        inside: None,
        next: Some(Constraint {
            active: false,
            in_region: Some(true),
            locks: true,
        }),
        spot: spot(Some(7)),
    };
    match m.process_input_event(InputEvent::PointerMotion(free)).1 {
        InputPlan::Motion {
            moves, activate, ..
        } => assert!(moves && activate),
        other => panic!("{other:?}"),
    }
    let locked = MotionInput {
        constraint: Some(Constraint {
            active: true,
            in_region: None,
            locks: true,
        }),
        ..free
    };
    match m.process_input_event(InputEvent::PointerMotion(locked)).1 {
        InputPlan::Motion {
            moves, activate, ..
        } => assert!(!moves && !activate),
        other => panic!("{other:?}"),
    }
    let confined = MotionInput {
        constraint: Some(Constraint {
            active: true,
            in_region: None,
            locks: false,
        }),
        same_surface: true,
        inside: Some(false),
        ..free
    };
    match m.process_input_event(InputEvent::PointerMotion(confined)).1 {
        InputPlan::Motion { moves, .. } => assert!(!moves),
        other => panic!("{other:?}"),
    }
}

#[test]
fn plugging_in_is_no_activity() {
    let mut m = wm();
    m.idle_notifier = true;
    assert!(
        !m.process_input_event(InputEvent::DeviceAdded { tablet: true })
            .0
    );
    let (activity, plan) = m.process_input_event(InputEvent::TabletToolTip {
        known: true,
        down: true,
        window: Some(7),
    });
    assert!(activity);
    assert!(matches!(
        plan,
        InputPlan::ToolTip {
            down: true,
            focus: Some(7)
        }
    ));
    m.idle_notifier = false;
    assert!(!m.process_input_event(InputEvent::Other).0);
    assert!(matches!(
        m.process_input_event(InputEvent::DeviceRemoved {
            tablet: true,
            left: 0
        })
        .1,
        InputPlan::RemoveTablet { clear_tools: true }
    ));
    let changed = ToolAxes {
        pressure: true,
        distance: false,
        tilt: false,
        slider: false,
        rotation: false,
        wheel: false,
    };
    match m
        .process_input_event(InputEvent::TabletToolAxis {
            known: true,
            changed,
        })
        .1
    {
        InputPlan::ToolMotion { area, axes } => {
            assert_eq!(area, rect(0, 0, 1920, 1080));
            assert_eq!(axes, Some(changed));
        }
        other => panic!("{other:?}"),
    }
}

#[test]
fn bounds_reach_around_all_outputs() {
    let mut m = wm();
    m.desktop.space.outputs.push(OutputArea {
        id: 2,
        geometry: Some(rect(1920, -100, 1280, 1024)),
        zone: rect(0, 0, 1280, 1024),
    });
    assert_eq!(
        workspace_bounds(&m.desktop.space),
        Some(rect(0, -100, 3200, 1180))
    );
    m.desktop.space.outputs.clear();
    assert_eq!(workspace_bounds(&m.desktop.space), None);
}

#[test]
fn lock_covers_the_outputs_and_gives_the_focus_back() {
    let mut m = wm();
    m.lock(50, Some(8));
    assert_eq!(m.maybe_confirm_lock(&vec![60]), None);
    let plan = m.new_lock_surface(60, 1, Some((3840, 2160)), 2, None, Some(8));
    // Only what a lock surface shows confirms the lock, and that once.
    assert_eq!(m.maybe_confirm_lock(&vec![7]), None);
    assert_eq!(m.maybe_confirm_lock(&vec![7, 60]), Some(50));
    assert_eq!(m.maybe_confirm_lock(&vec![7, 60]), None);
    assert_eq!(plan.size, (1920, 1080));
    assert_eq!(plan.focus, Some(60));
    assert_eq!(m.lock_surface_for(1), Some(60));
    assert_eq!(m.lock_surface_for(2), None);
    // With two outputs the one under the pointer is faced.
    m.desktop.space.outputs.push(OutputArea {
        id: 2,
        geometry: Some(rect(1920, 0, 1280, 1024)),
        zone: rect(0, 0, 1280, 1024),
    });
    let second = Some(Point { x: 2000, y: 5 });
    let plan = m.new_lock_surface(61, 2, None, 1, second, Some(60));
    assert_eq!((plan.size, plan.focus), ((0, 0), Some(61)));
    assert_eq!(m.focus_lock_surface(second, Some(61)), None);
    assert_eq!(m.focus_lock_surface(None, Some(61)), Some(60));
    assert!(m.is_locked());
    assert_eq!(m.unlock(), Some(8));
    assert!(!m.is_locked());
}

#[test]
fn commit_goes_to_the_window_before_the_shells() {
    let mut m = wm();
    let last = [
        CommitStep::Layers,
        CommitStep::Shells,
        CommitStep::Resizes,
        CommitStep::ConfirmLock,
    ];
    assert_eq!(m.commit(true, Some(4)), last);
    assert_eq!(m.commit(false, None), last);
    m.idle_inhibitors.push(9);
    let steps = m.commit(false, Some(4));
    assert_eq!(steps[0], CommitStep::TakeIn { window: 4 });
    assert_eq!(steps[3], CommitStep::Recenter { window: 4 });
    assert_eq!(steps[4], CommitStep::RefreshIdle);
    assert_eq!(steps[5..], last);
}

#[test]
fn question_is_asked_once_and_only_yes_counts() {
    let mut m = wm();
    assert!(m.may_confirm());
    assert_eq!(
        m.confirm_action(OnAccept::Quit, HelperStart::NoWatch),
        HelperFate::Kill
    );
    assert!(m.may_confirm());
    assert_eq!(
        m.confirm_action(OnAccept::Quit, HelperStart::Running { pid: 9, token: 3 }),
        HelperFate::Shown
    );
    assert!(!m.may_confirm());
    assert_eq!(
        m.finalize_confirm(HelperExit::Code(1)),
        ConfirmEnd {
            unwatch: Some(3),
            accepted: None
        }
    );
    m.confirm_action(OnAccept::Quit, HelperStart::Running { pid: 9, token: 4 });
    assert_eq!(
        m.finalize_confirm(HelperExit::Code(0)),
        ConfirmEnd {
            unwatch: Some(4),
            accepted: Some(OnAccept::Quit)
        }
    );
    assert_eq!(m.finalize_confirm(HelperExit::Code(0)).accepted, None);
}

fn two_level_keymap() -> Vec<KeyLevels> {
    vec![
        KeyLevels {
            keycode: 38,
            layouts: vec![vec![vec![0x61], vec![0x41]]],
        },
        KeyLevels {
            keycode: 50,
            layouts: vec![vec![vec![0xffe1]]],
        },
    ]
}

#[test]
fn text_is_typed_with_shift_where_needed() {
    let mut m = wm();
    m.keymap = two_level_keymap();
    m.inject_text("aA").unwrap();
    let steps: Vec<(u32, bool)> = m.key_queue.iter().map(|s| (s.keycode, s.pressed)).collect();
    assert_eq!(
        steps,
        vec![
            (38, true),
            (38, false),
            (50, true),
            (38, true),
            (38, false),
            (50, false)
        ]
    );
    // No key stays down.
    for keycode in [38, 50] {
        let of_key: Vec<bool> = steps
            .iter()
            .filter(|s| s.0 == keycode)
            .map(|s| s.1)
            .collect();
        let down = of_key.iter().filter(|p| **p).count();
        assert_eq!(2 * down, of_key.len());
    }
    // A letter without a key, and one that cannot be typed at all.
    let no_key = m.inject_text("b").unwrap_err();
    assert!(matches!(no_key, InjectError::UnsupportedChar('b')));
    let odd = m.inject_text("é").unwrap_err();
    assert!(odd.message().contains("'é'"));
}

#[test]
fn chord_presses_and_releases_everything() {
    let mut m = wm();
    m.keymap = two_level_keymap();
    m.inject_key("a", &vec!["shift".to_string()], 0x61, &vec![0xffe1])
        .unwrap();
    assert_eq!(
        m.key_queue,
        vec![
            KeyStep {
                keycode: 50,
                pressed: true
            },
            KeyStep {
                keycode: 38,
                pressed: true
            },
            KeyStep {
                keycode: 38,
                pressed: false
            },
            KeyStep {
                keycode: 50,
                pressed: false
            },
        ]
    );
    let gone = m.inject_key("F5", &Vec::new(), 0xffc2, &Vec::new()).unwrap_err();
    assert!(matches!(gone, InjectError::KeysymNotInKeymap(_)));
    assert!(gone.message().contains("\"F5\""));
}

#[test]
fn pointer_shows_what_the_client_wants() {
    let mut m = wm();
    assert_eq!(m.pointer_element.render_elements(), PointerPicture::Nothing);
    m.pointer_element.set_buffer(5);
    assert_eq!(
        m.pointer_element.render_elements(),
        PointerPicture::Buffer(5)
    );
    m.cursor_image(CursorImageStatus::Surface(9));
    assert_eq!(
        m.pointer_element.render_elements(),
        PointerPicture::Surface(9)
    );
    m.cursor_image(CursorImageStatus::Hidden);
    assert_eq!(m.pointer_element.render_elements(), PointerPicture::Nothing);
}

#[test]
fn fullscreen_window_is_drawn_from_the_outputs_corner() {
    let mut m = wm();
    m.desktop.space.outputs[0].geometry = Some(rect(50, 60, 1920, 1080));
    assert_eq!(
        output_space_elements(&m.desktop.space, 1, Some(8)),
        SpaceElements::Window {
            window: 8,
            loc: Point { x: 150, y: 40 }
        }
    );
    assert_eq!(
        output_space_elements(&m.desktop.space, 1, None),
        SpaceElements::Stack
    );
}

#[test]
fn focus_of_an_x_window_is_its_surface_once_mapped() {
    assert_eq!(KeyboardFocusTarget::Wayland(3).surface(), Some(3));
    let x = KeyboardFocusTarget::X11 {
        window: 9,
        surface: None,
    };
    assert_eq!(x.surface(), None);
}

#[test]
fn inhibitors_follow_the_focus() {
    let mut m = wm();
    assert!(!m.new_inhibitor(11, false));
    assert_eq!(m.active_shortcuts_inhibitor, None);
    assert!(m.new_inhibitor(12, true));
    let s = m.focus_changed(Some(11));
    assert_eq!((s.off, s.on), (Some(12), Some(11)));
    let same = m.focus_changed(Some(11));
    assert_eq!((same.off, same.on), (None, None));
    m.inhibitor_destroyed(12);
    assert_eq!(m.active_shortcuts_inhibitor, Some(11));
    m.inhibitor_destroyed(11);
    assert_eq!(m.active_shortcuts_inhibitor, None);
    m.inhibit(1);
    m.inhibit(2);
    m.inhibit(1);
    m.uninhibit(1);
    assert_eq!(m.idle_inhibitors, vec![2, 1]);
    m.uninhibit(5);
    assert_eq!(m.idle_inhibitors, vec![2, 1]);
}

#[test]
fn released_pointer_comes_back_where_it_was_drawn() {
    let mut m = wm();
    let hint = CursorHint {
        surface: 4,
        x_bits: 1,
        y_bits: 2,
    };
    m.cursor_position_hint(hint, false);
    assert_eq!(m.cursor_hint, None);
    m.cursor_position_hint(hint, true);
    assert_eq!(m.remove_constraint(4, false), None);
    assert_eq!(m.remove_constraint(4, true), Some(hint));
    assert_eq!(m.remove_constraint(4, true), None);
    assert!(m.new_constraint(4, Some(4)));
    assert!(!m.new_constraint(4, Some(5)));
    assert!(dnd_requested(DragSource::Pointer));
    assert!(!dnd_requested(DragSource::Touch));
    assert_eq!(m.new_fractional_scale(Some(8)), Some(1));
    assert_eq!(m.new_fractional_scale(None), Some(1));
}

#[test]
fn device_settings_fall_back_to_defaults() {
    let device = DeviceDefaults {
        tap_to_click: false,
        tap_and_drag: true,
        drag_lock: DragLock::EnabledSticky,
        natural_scroll: false,
        scroll_button: 274,
        accel_speed_bits: 0,
        disable_while_typing: true,
        left_handed: false,
        middle_emulation: false,
        tap_button_map: None,
        scroll_method: Some(ScrollMethod::TwoFinger),
        click_method: None,
        accel_profile: None,
    };
    let mut cfg = settings();
    let plain = apply(&cfg, &device);
    assert_eq!(plain.drag_lock, DragLock::EnabledSticky);
    assert_eq!(plain.scroll_button, 274);
    assert_eq!(plain.accel_profile, None);
    cfg.tap_to_click = Some(true);
    cfg.drag_lock = Some(true);
    cfg.accel_profile = Some(AccelProfile::Flat);
    cfg.scroll_method = Some(ScrollMethod::Edge);
    let set = apply(&cfg, &device);
    assert!(set.tap_to_click);
    assert_eq!(set.drag_lock, DragLock::EnabledTimeout);
    assert_eq!(set.accel_profile, Some(AccelProfile::Flat));
    assert_eq!(set.scroll_method, Some(ScrollMethod::Edge));
    let mut m = wm();
    m.config.input = cfg;
    let all = m.reapply_input_config(&vec![(3, device), (4, device)]);
    assert_eq!(all, vec![(3, set), (4, set)]);
}

#[test]
fn configuration_is_read_anew() {
    let mut m = wm();
    assert_eq!(
        m.reload_config_from_disk(Err("bad".to_string())).unwrap_err(),
        "no config file is in use (WM was launched without --config)"
    );
    m.config_path = Some("/c/config.toml".to_string());
    assert_eq!(
        m.reload_config_from_disk(Err("bad".to_string())).unwrap_err(),
        "/c/config.toml: bad"
    );
    let mut next = config();
    next.xkb.layout = "de".to_string();
    let done = m
        .reload_config_from_disk(Ok(Loaded {
            config: next,
            bindings: Vec::new(),
            keysyms: Vec::new(),
        }))
        .unwrap();
    assert!(done.rebuild_keymap);
    assert!(done.subscribers.is_empty());
    assert!(m.bindings.binds.is_empty());
    assert_eq!(m.config.xkb.layout, "de");
}

#[test]
fn burst_of_changes_reloads_once() {
    let mut m = wm();
    let w = ConfigWatcher::target(
        "/c/config.toml",
        Some("/c".to_string()),
        Some("config.toml".to_string()),
    )
    .unwrap();
    assert!(w.concerns(
        ChangeKind::Modify,
        &vec![None, Some("config.toml".to_string())]
    ));
    assert!(!w.concerns(ChangeKind::Modify, &vec![Some("other".to_string())]));
    assert!(!w.concerns(ChangeKind::Access, &vec![Some("config.toml".to_string())]));
    assert_eq!(m.debounce_config_reload(), None);
    m.reload_armed(Some(1));
    assert_eq!(m.debounce_config_reload(), Some(1));
    m.reload_armed(Some(2));
    m.reload_fired();
    assert_eq!(m.debounce_config_reload(), None);
}

#[test]
fn new_window_is_put_in_the_middle() {
    let mut m = wm();
    let plan = m.new_toplevel(win(9), "id-9".to_string());
    assert_eq!(plan.location, Point { x: 760, y: 390 });
    assert_eq!(plan.bounds, Some(Size { w: 1920, h: 1080 }));
    assert_eq!(plan.workspace, 2);
    assert_eq!(m.pending_initial_center, vec![9]);
    assert_eq!(m.desktop.workspaces.assigned, vec![(7, 2), (8, 2), (9, 2)]);
    assert_eq!(m.desktop.toplevels.last().unwrap().handle, "id-9");
    assert!(plan.subscribers.is_empty());
    assert_eq!(plan.focus, 9);
    assert_eq!(m.toplevel_destroyed(9).unwrap().handle, "id-9");
    assert!(m.pending_initial_center.is_empty());
    assert_eq!(m.toplevel_destroyed(8).unwrap().handle, "id-8");
    assert!(m.toplevel_destroyed(8).is_none());
    assert_eq!(m.desktop.workspaces.assigned, vec![(7, 2)]);
    assert_eq!(
        m.unconstrain_popup(Some(7), Point { x: 10, y: 20 }),
        Some(rect(-110, -120, 1920, 1080))
    );
    assert_eq!(m.unconstrain_popup(Some(99), Point { x: 0, y: 0 }), None);
}

fn owned(p: GetPlan) -> (Option<String>, Vec<u8>) {
    match p {
        GetPlan::Reply(ClipboardReply::Clipboard { mime, data }) => (mime, data),
        other => panic!("{other:?}"),
    }
}

#[test]
fn selection_reads_back_what_was_set() {
    let mut m = wm();
    assert_eq!(owned(m.handle_get_clipboard(false)), (None, Vec::new()));
    let offered = m.handle_set_clipboard(false, "text/plain", &b"hi".to_vec());
    assert_eq!(offered.len(), 5);
    assert_eq!(
        owned(m.handle_get_clipboard(false)),
        (Some("text/plain;charset=utf-8".to_string()), b"hi".to_vec())
    );
    // The other selection is another one.
    assert_eq!(owned(m.handle_get_clipboard(true)), (None, Vec::new()));
    let paste = |m: &ShoestringWm, mime: &str| {
        m.serve_clipboard_selection(SelectionTarget::Clipboard, mime)
    };
    assert_eq!(paste(&m, "UTF8_STRING"), Some(b"hi".to_vec()));
    assert_eq!(paste(&m, "image/png"), None);
    m.note_new_selection(SelectionTarget::Clipboard, vec!["image/png".to_string()]);
    assert_eq!(paste(&m, "UTF8_STRING"), None);
    assert_eq!(owned(m.handle_get_clipboard(false)), (None, Vec::new()));
    m.note_new_selection(SelectionTarget::Primary, vec!["STRING".to_string()]);
    match m.handle_get_clipboard(true) {
        GetPlan::AskOwner { mime } => assert_eq!(mime, "STRING"),
        other => panic!("{other:?}"),
    }
}

#[test]
fn window_is_asked_for_its_text() {
    let mut m = wm();
    let mime = || "STRING".to_string();
    match m.clipboard_asked(ClientId(3), mime(), AskOutcome::NoPipe("full".to_string())) {
        AskPlan::Reply(ClipboardReply::Error { message }) => {
            assert_eq!(message, "clipboard: pipe failed: full")
        }
        other => panic!("{other:?}"),
    }
    assert!(matches!(
        m.clipboard_asked(ClientId(3), mime(), AskOutcome::Refused),
        AskPlan::Reply(ClipboardReply::Clipboard { mime: None, .. })
    ));
    assert!(matches!(
        m.clipboard_asked(ClientId(3), mime(), AskOutcome::Asked),
        AskPlan::Wait { read_id: 0 }
    ));
    m.clipboard_watched(0, 55);
    m.clipboard_data(0, b"ab".to_vec());
    m.clipboard_data(9, b"lost".to_vec());
    m.clipboard_data(0, b"c".to_vec());
    let done = m.finalize_clipboard_read(0).unwrap();
    assert_eq!(done.client, ClientId(3));
    assert_eq!(done.token, Some(55));
    match done.reply {
        ClipboardReply::Clipboard { mime, data } => {
            assert_eq!(mime.as_deref(), Some("STRING"));
            assert_eq!(data, b"abc");
        }
        other => panic!("{other:?}"),
    }
    assert!(m.finalize_clipboard_read(0).is_none());
    assert!(matches!(
        m.clipboard_asked(ClientId(4), mime(), AskOutcome::Asked),
        AskPlan::Wait { read_id: 1 }
    ));
}

#[test]
fn hidden_window_is_brought_back_by_name() {
    let mut m = wm();
    assert!(m.unminimize_window(7).is_none());
    m.minimize_window(win(7)).unwrap();
    m.minimize_window(win(8)).unwrap();
    let shown = m.unminimize_window(7).unwrap();
    assert_eq!(shown.loc, Point { x: 100, y: 100 });
    assert_eq!(shown.workspace, 2);
    assert!(m.unminimize_window(7).is_none());
    assert_eq!(m.unminimize_last(&vec![7, 8]).unwrap().window, 8);
}

#[test]
fn borders_lie_inside_their_windows() {
    let mut m = wm();
    let screen = Some(rect(0, 0, 1920, 1080));
    let borders = m.output_border_elements(screen, false, false);
    assert_eq!(borders.len(), 2);
    assert!(!borders[0].focused && borders[1].focused);
    assert_eq!(borders[0].bars[0], rect(100, 100, 400, 2));
    assert_eq!(borders[0].bars[1], rect(100, 398, 400, 2));
    assert_eq!(borders[0].bars[2], rect(100, 102, 2, 296));
    assert_eq!(borders[0].bars[3], rect(498, 102, 2, 296));
    assert_eq!(m.window_borders, vec![7, 8]);
    // Relative to the output, and only where the window meets it.
    let aside = m.output_border_elements(Some(rect(550, 0, 1000, 1080)), false, false);
    assert_eq!(aside.len(), 1);
    assert_eq!(aside[0].bars[0], rect(-350, 100, 400, 2));
    assert!(m.output_border_elements(screen, true, false).is_empty());
    assert!(m.output_border_elements(screen, false, true).is_empty());
    m.desktop.space.elements.remove(0);
    m.output_border_elements(screen, true, false);
    assert_eq!(m.window_borders, vec![8]);
}

#[test]
fn window_held_at_the_edge_goes_on() {
    let mut m = wm();
    let at = |x: i64| Some(Coord { floor: x, ceil: x });
    assert!(m.try_edge_repeat_shift(at(1920)).is_none());
    m.edge_drag_window = Some(8);
    assert_eq!(m.arm_edge_repeat_timer(Some(5)), None);
    assert_eq!(m.arm_edge_repeat_timer(Some(6)), Some(5));
    let right = m.try_edge_repeat_shift(at(1920)).unwrap();
    assert_eq!((right.window, right.workspace), (8, 3));
    assert_eq!(m.edge_drag_repeat_token, None);
    assert_eq!(m.try_edge_repeat_shift(at(0)).unwrap().workspace, 1);
    assert!(m.try_edge_repeat_shift(at(900)).is_none());
    assert!(m.try_edge_repeat_shift(None).is_none());
    m.desktop.workspaces.active = 4;
    assert!(m.try_edge_repeat_shift(at(1920)).is_none());
    m.arm_edge_repeat_timer(Some(7));
    assert_eq!(m.end_edge_drag(), Some(7));
    assert_eq!(m.edge_drag_window, None);
}

#[test]
fn edges_of_an_x_request() {
    let e = ResizeEdge::from_x11(X11Edge::TopLeft);
    assert!(e.top && e.left && !e.bottom && !e.right);
    let e = ResizeEdge::from_x11(X11Edge::Right);
    assert!(!e.top && !e.left && !e.bottom && e.right);
    assert!(waits_for_acquire(true, true));
    assert!(!waits_for_acquire(true, false));
}

#[test]
fn panel_shows_where_the_pointer_is() {
    let mut m = wm();
    m.desktop.space.outputs.push(OutputArea {
        id: 2,
        geometry: Some(rect(1920, 0, 800, 600)),
        zone: rect(0, 0, 800, 600),
    });
    let values = vec![("wm.windows".to_string(), MetricValue::Gauge { value: 3 })];
    let there = Some(Point { x: 2000, y: 10 });
    assert!(!m.is_diag_overlay_output(2, there));
    assert!(m
        .refresh_diag_overlay(1, 0, &values, Some(600), 20)
        .is_none());
    m.diag_overlay.toggle();
    assert!(m.is_diag_overlay_output(2, there));
    assert!(!m.is_diag_overlay_output(1, there));
    let text = m
        .refresh_diag_overlay(1, 0, &values, Some(600), 20)
        .unwrap();
    assert!(text.ends_with("wm.windows = 3"));
    m.diag_overlay.mark_built(0);
    assert_eq!(
        wallpaper_dims(Some((1920, 1080)), Some(rect(0, 0, 960, 540)), (1, 1)),
        Some(((1920, 1080), (960, 540)))
    );
    assert_eq!(
        wallpaper_dims(Some((1920, 1080)), None, (1, 1)),
        Some(((1920, 1080), (1, 1)))
    );
    assert_eq!(wallpaper_dims(None, None, (1, 1)), None);
}

#[test]
fn handles_and_sessions_end() {
    let mut m = wm();
    m.announce_existing_to_manager(&vec![(7, 70), (8, 80)]);
    m.announce_existing_to_manager(&vec![(7, 71)]);
    m.foreign_toplevel_mgmt.handle_destroyed(7, 70);
    assert_eq!(m.foreign_toplevel_mgmt.windows[0].handles, vec![71]);
    m.foreign_toplevel_mgmt.handle_destroyed(7, 71);
    assert_eq!(m.foreign_toplevel_mgmt.windows.len(), 1);
    assert_eq!(m.foreign_toplevel_mgmt.windows[0].window, 8);
    m.ext_screencopy.sessions = vec![1, 2, 3];
    m.capture_session_destroyed(2);
    assert_eq!(m.ext_screencopy.sessions, vec![1, 3]);
}

#[test]
fn followers_hear_of_windows_and_settings() {
    let mut m = wm();
    let mut s = Server::new();
    s.accept_client();
    let follower = s.accept_client();
    assert!(!s.clients[1].1.joined_events(true));
    m.ipc = Some(s);
    let plan = m.new_toplevel(win(9), "id-9".to_string());
    assert_eq!(plan.subscribers, vec![follower]);
    let closed = m.toplevel_destroyed(9).unwrap();
    assert_eq!(closed.handle, "id-9");
    assert_eq!(closed.subscribers, vec![follower]);
    m.config_path = Some("/c/config.toml".to_string());
    let done = m
        .reload_config_from_disk(Ok(Loaded {
            config: config(),
            bindings: Vec::new(),
            keysyms: Vec::new(),
        }))
        .unwrap();
    assert!(!done.rebuild_keymap);
    assert_eq!(done.subscribers, vec![follower]);
}

#[test]
fn timer_that_could_not_be_set_leaves_the_last_one() {
    let mut m = wm();
    let mut stops = Vec::new();
    for token in [4, 5, 6] {
        stops.push(m.debounce_config_reload());
        m.reload_armed(Some(token));
    }
    assert_eq!(stops, vec![None, Some(4), Some(5)]);
    assert_eq!(m.pending_reload_token, Some(6));
    m.reload_armed(None);
    assert_eq!(m.pending_reload_token, Some(6));
}

#[test]
fn marked_up_text_is_pasted_as_given_and_as_text() {
    let mut m = wm();
    let data = b"<b>hi</b>".to_vec();
    let offered = m.handle_set_clipboard(false, "text/html", &data);
    assert_eq!(offered.len(), 6);
    assert!(offered.contains(&"text/html".to_string()));
    for mime in &offered {
        assert_eq!(
            m.serve_clipboard_selection(SelectionTarget::Clipboard, mime),
            Some(data.clone())
        );
    }
    assert!(offered.contains(&"UTF8_STRING".to_string()));
    assert_eq!(
        owned(m.handle_get_clipboard(false)),
        (Some("text/plain;charset=utf-8".to_string()), data)
    );
    // A picture is offered as what it is.
    let offered = m.handle_set_clipboard(true, "image/png", &vec![1, 2]);
    assert_eq!(offered, vec!["image/png".to_string()]);
    assert_eq!(
        m.serve_clipboard_selection(SelectionTarget::Primary, "image/png"),
        Some(vec![1, 2])
    );
}

#[test]
fn one_binding_repeats_at_a_time() {
    let mut m = wm();
    let left = Action::FocusWorkspaceRelative { delta: -1 };
    let stop = |m: &mut ShoestringWm, keycode: u32| {
        let event = InputEvent::Keyboard {
            keycode,
            pressed: false,
            sym: None,
            mods: mods(false, false, false, true),
        };
        match m.process_input_event(event).1 {
            InputPlan::Key(k) => k.stop,
            other => panic!("{other:?}"),
        }
    };
    assert_eq!(m.bound_key_acted(43, &left, Some(5)), None);
    assert_eq!(m.bound_key_acted(44, &left, Some(6)), Some(5));
    // The key whose binding does not repeat any more stops nothing.
    assert_eq!(stop(&mut m, 43), None);
    assert!(m.tick_key_repeat().is_some());
    assert_eq!(stop(&mut m, 44), Some(6));
    assert!(m.tick_key_repeat().is_none());
    assert_eq!(m.bound_key_acted(44, &left, Some(7)), None);
    assert_eq!(m.bound_key_acted(45, &Action::Close, None), Some(7));
    assert!(m.key_repeat.is_none());
}

#[test]
fn terminal_can_be_switched_while_locked() {
    let mut m = wm();
    m.lock(50, None);
    let press = |m: &mut ShoestringWm, sym: u32, mods: ModifiersState| {
        let event = InputEvent::Keyboard {
            keycode: 9,
            pressed: true,
            sym: Some(sym),
            mods,
        };
        match m.process_input_event(event).1 {
            InputPlan::Key(k) => k.verdict,
            other => panic!("{other:?}"),
        }
    };
    let quit = press(&mut m, KEY_Q, mods(false, false, true, true));
    assert!(matches!(quit, KeyVerdict::Forward));
    let terminal = press(&mut m, KEY_F1, mods(true, true, false, false));
    assert!(matches!(
        terminal,
        KeyVerdict::Act(Action::ChangeVt { vt: 1 })
    ));
}
