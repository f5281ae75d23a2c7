//! Requests of clients: screen copies, outputs, virtual pointers, workspaces,
//! window lists, layers, decorations.

use std::collections::HashMap;

use shoestring_wm::backend::Transform;
use shoestring_wm::binds::BindingTable;
use shoestring_wm::config::Config;
use shoestring_wm::config::FocusMode;
use shoestring_wm::config::XkbSettings;
use shoestring_wm::desktop::Desktop;
use shoestring_wm::desktop::Toplevel;
use shoestring_wm::desktop::Workspaces;
use shoestring_wm::ext_screencopy::CaptureFailureReason;
use shoestring_wm::ext_screencopy::ExtScreencopyState;
use shoestring_wm::ext_screencopy::FrameFate;
use shoestring_wm::ext_screencopy::PendingExtFrame;
use shoestring_wm::ext_screencopy::Step;
use shoestring_wm::ext_workspace::broadcast_active;
use shoestring_wm::ext_workspace::broadcast_output_enter;
use shoestring_wm::ext_workspace::broadcast_output_leave;
use shoestring_wm::ext_workspace::coordinates_bytes;
use shoestring_wm::ext_workspace::notify_output_bound;
use shoestring_wm::ext_workspace::workspace_name;
use shoestring_wm::ext_workspace::WorkspaceMsg;
use shoestring_wm::foreign_toplevel_mgmt::state_array_bytes;
use shoestring_wm::foreign_toplevel_mgmt::HandlePlan;
use shoestring_wm::foreign_toplevel_mgmt::HandleRequest;
use shoestring_wm::geometry::rect;
use shoestring_wm::geometry::Point;
use shoestring_wm::geometry::Size;
use shoestring_wm::handlers::layer_shell;
use shoestring_wm::handlers::layer_shell::new_layer_surface;
use shoestring_wm::handlers::layer_shell::FocusReturn;
use shoestring_wm::handlers::output_management::transform_of;
use shoestring_wm::handlers::output_management::ApplyStart;
use shoestring_wm::handlers::output_management::ApplyStep;
use shoestring_wm::handlers::output_management::ConfigurationData;
use shoestring_wm::handlers::output_management::HeadRequest;
use shoestring_wm::handlers::output_management::WireTransform;
use shoestring_wm::handlers::screencopy::validate_shm;
use shoestring_wm::handlers::screencopy::CopyReply;
use shoestring_wm::handlers::screencopy::FrameOffer;
use shoestring_wm::handlers::screencopy::ShmBuffer;
use shoestring_wm::handlers::virtual_pointer::map_axis_source;
use shoestring_wm::handlers::virtual_pointer::map_button_state;
use shoestring_wm::handlers::virtual_pointer::PendingFrame;
use shoestring_wm::handlers::virtual_pointer::PointerReply;
use shoestring_wm::handlers::virtual_pointer::PointerRequest;
use shoestring_wm::handlers::xdg_activation::TokenData;
use shoestring_wm::handlers::xdg_decoration::force_server_side;
use shoestring_wm::handlers::xdg_decoration::DecorationMode;
use shoestring_wm::handlers::xdg_decoration::DecorationRequest;
use shoestring_wm::handlers::xdg_shell::handle_commit;
use shoestring_wm::input_config::InputSettings;
use shoestring_wm::layout::LayoutManager;
use shoestring_wm::layout::OutputArea;
use shoestring_wm::layout::Placed;
use shoestring_wm::layout::Space;
use shoestring_wm::layout::Window;
use shoestring_wm::state::ShoestringWm;

const FULL_HD: Size = Size { w: 1920, h: 1080 };

fn window(id: u64) -> Window {
    Window {
        id,
        size: Size { w: 400, h: 300 },
    }
}

fn state() -> ShoestringWm {
    let desktop = Desktop {
        space: Space {
            elements: vec![Placed {
                window: window(7),
                loc: Point { x: 10, y: 20 },
                outputs: vec![1],
            }],
            outputs: vec![OutputArea {
                id: 1,
                geometry: Some(rect(0, 0, 1920, 1080)),
                zone: rect(0, 0, 1920, 1080),
            }],
        },
        layout: LayoutManager::new(),
        outputs: Vec::new(),
        toplevels: vec![Toplevel {
            window: window(7),
            handle: "id-7".to_string(),
            title: "shell".to_string(),
            app_id: "term".to_string(),
            sticky: false,
        }],
        focused: Some(window(7)),
        name_overrides: HashMap::new(),
        workspaces: Workspaces {
            active: 2,
            count: 3,
            names: vec!["web".to_string()],
            assigned: vec![(7, 2)],
        },
    };
    let config = Config {
        focus_mode: FocusMode::ClickToFocus,
        lock_command: "locker".to_string(),
        desktop_scroll_notches: 1,
        diagnostics_enabled: false,
        sample_interval_ms: 1000,
        xkb: XkbSettings {
            layout: "us".to_string(),
            variant: String::new(),
            options: None,
            rules: String::new(),
            model: String::new(),
        },
        border_width: 2,
        input: InputSettings {
            tap_to_click: None,
            tap_and_drag: None,
            drag_lock: None,
            natural_scroll: None,
            scroll_button: None,
            accel_speed_bits: None,
            disable_while_typing: None,
            left_handed: None,
            middle_emulation: None,
            tap_button_map: None,
            scroll_method: None,
            click_method: None,
            accel_profile: None,
        },
    };
    let mut s = ShoestringWm::new(desktop, BindingTable { binds: Vec::new() }, config);
    s.screen_capture_enabled = true;
    s
}

fn shm(width: i32, height: i32) -> Option<ShmBuffer> {
    Some(ShmBuffer {
        argb8888: true,
        width,
        height,
        stride: width * 4,
    })
}

#[test]
fn copy_of_a_whole_output() {
    let mut s = state();
    let (mut frame, offer) = s.create_frame(Some(1), Some(FULL_HD), None, false);
    assert!(matches!(
        offer,
        FrameOffer::Buffer {
            width: 1920,
            height: 1080,
            stride: 7680
        }
    ));
    assert!(matches!(
        s.copy_frame(30, &mut frame, 5, shm(1920, 1080)),
        CopyReply::Queued { output: Some(1) }
    ));
    assert!(matches!(
        s.copy_frame(30, &mut frame, 5, shm(1920, 1080)),
        CopyReply::AlreadyUsed
    ));
    assert_eq!(s.screencopy_pending, vec![30]);
    s.frame_destroyed(30);
    assert!(s.screencopy_pending.is_empty());
}

#[test]
fn copy_is_cut_to_the_output() {
    let mut s = state();
    let (mut frame, offer) =
        s.create_frame(Some(1), Some(FULL_HD), Some(rect(1900, 1000, 100, 100)), true);
    assert!(matches!(
        offer,
        FrameOffer::Buffer {
            width: 20,
            height: 80,
            stride: 80
        }
    ));
    assert!(matches!(
        s.copy_frame(31, &mut frame, 5, shm(20, 81)),
        CopyReply::InvalidBuffer
    ));
    let outside = s
        .create_frame(Some(1), Some(FULL_HD), Some(rect(1920, 0, 10, 10)), false)
        .1;
    assert!(matches!(outside, FrameOffer::Failed));
    let nowhere = s.create_frame(None, None, None, false).1;
    assert!(matches!(nowhere, FrameOffer::Failed));
}

#[test]
fn nothing_is_copied_while_capture_is_off() {
    let mut s = state();
    let (mut frame, _) = s.create_frame(Some(1), Some(FULL_HD), None, false);
    s.screen_capture_enabled = false;
    assert!(matches!(
        s.create_frame(Some(1), Some(FULL_HD), None, false).1,
        FrameOffer::Failed
    ));
    assert!(matches!(
        s.copy_frame(30, &mut frame, 5, shm(1920, 1080)),
        CopyReply::Failed
    ));
    assert_eq!(s.capture_constraints(Some(1)), None);
    assert!(matches!(
        s.capture_frame(3, Some(1)),
        FrameFate::Fail(CaptureFailureReason::Stopped)
    ));
    assert!(s.ext_screencopy.pending.is_empty());
}

#[test]
fn buffer_must_fit_exactly() {
    let region = rect(0, 0, 20, 10);
    assert!(validate_shm(shm(20, 10), region, 80));
    assert!(!validate_shm(shm(21, 10), region, 80));
    assert!(!validate_shm(shm(20, 10), region, 84));
    assert!(!validate_shm(None, region, 80));
    let other = ShmBuffer {
        argb8888: false,
        width: 20,
        height: 10,
        stride: 80,
    };
    assert!(!validate_shm(Some(other), region, 80));
}

fn run(pass: &mut shoestring_wm::ext_screencopy::CapturePass, copies: &mut Vec<u64>) -> Vec<(u64, bool)> {
    let mut told = Vec::new();
    for _ in 0..32 {
        let ok = match pass.step() {
            Step::Done => break,
            // The second frame's buffer cannot be painted to.
            Step::Paint { frame } => frame != 2,
            Step::Copy { frame, .. } => {
                copies.push(frame);
                true
            }
            _ => true,
        };
        for v in pass.report(ok) {
            told.push((v.frame, v.success));
        }
    }
    told
}

#[test]
fn each_waiting_frame_is_told_once() {
    let mut e = ExtScreencopyState::new();
    for f in 1..5u64 {
        e.pending.push(PendingExtFrame {
            frame: f,
            output: if f == 4 { 9 } else { 1 },
        });
    }
    let (early, mut pass) = e.process_pending(1, Some(FULL_HD), &vec![1, 2]);
    let mut copies = Vec::new();
    let mut told: Vec<(u64, bool)> = early.iter().map(|v| (v.frame, v.success)).collect();
    told.extend(run(&mut pass, &mut copies));
    told.sort();
    assert_eq!(told, vec![(1, true), (2, false), (3, true)]);
    assert_eq!(copies, vec![3]);
    // The frame of the other output still waits.
    assert_eq!(e.pending.len(), 1);
    assert_eq!(e.pending[0].frame, 4);
    let (failed, mut nothing) = e.process_pending(9, None, &Vec::new());
    assert_eq!(failed.len(), 1);
    assert!(!failed[0].success);
    assert!(run(&mut nothing, &mut copies).is_empty());
}

#[test]
fn outputs_are_arranged_and_failures_told() {
    let mut s = state();
    s.output_management.serial = 8;
    let mut c = ConfigurationData::new(8);
    let h = c.add_head(1, true);
    c.configure_head(
        h,
        HeadRequest::SetMode {
            size: FULL_HD,
            refresh: 60_000,
        },
    );
    c.configure_head(h, HeadRequest::SetPosition(Point { x: 5, y: 6 }));
    c.configure_head(h, HeadRequest::SetTransform(WireTransform { code: 1 }));
    // An orientation that does not exist is passed over.
    c.configure_head(h, HeadRequest::SetTransform(WireTransform { code: 8 }));
    c.configure_head(h, HeadRequest::SetAdaptiveSync);
    c.add_head(2, false);
    let mut pass = match s.apply_configuration(Some(c), false, true) {
        ApplyStart::Run(p) => p,
        other => panic!("{other:?}"),
    };
    assert!(matches!(
        pass.step(),
        ApplyStep::ChangeMode {
            output: 1,
            refresh: 60_000,
            ..
        }
    ));
    pass.report(true);
    match pass.step() {
        ApplyStep::Arrange {
            output,
            transform,
            position,
            ..
        } => {
            assert_eq!(output, 1);
            assert_eq!(transform, Some(Transform::_90));
            assert_eq!(position, Some(Point { x: 5, y: 6 }));
        }
        other => panic!("{other:?}"),
    }
    pass.report(true);
    assert!(matches!(pass.step(), ApplyStep::Disable { output: 2 }));
    pass.report(false);
    assert!(matches!(pass.step(), ApplyStep::Answer { success: false }));
}

#[test]
fn arranging_clients_hear_of_the_outputs() {
    let mut s = state();
    s.output_management.serial = 5;
    assert_eq!(s.output_manager_bound(90), (vec![1], 5));
    assert_eq!(s.output_management.managers, vec![90]);
    s.output_manager_destroyed(90);
    assert!(s.output_management.managers.is_empty());
}

#[test]
fn outdated_arrangement_is_cancelled() {
    let mut s = state();
    s.output_management.serial = 8;
    assert!(matches!(
        s.apply_configuration(Some(ConfigurationData::new(7)), false, true),
        ApplyStart::Cancelled
    ));
    assert!(matches!(
        s.apply_configuration(None, false, true),
        ApplyStart::Failed
    ));
    assert!(matches!(
        s.apply_configuration(Some(ConfigurationData::new(8)), true, true),
        ApplyStart::Succeeded
    ));
    assert_eq!(transform_of(WireTransform { code: 0 }), Transform::Normal);
    assert_eq!(
        transform_of(WireTransform { code: 7 }),
        Transform::Flipped270
    );
}

#[test]
fn virtual_pointer_collects_a_frame() {
    let mut f = PendingFrame::new();
    assert!(matches!(
        f.request(PointerRequest::Motion { location: (1, 2) }),
        PointerReply::Nothing
    ));
    f.request(PointerRequest::Button {
        button: 272,
        state: 1,
    });
    f.request(PointerRequest::Button {
        button: 272,
        state: 5,
    });
    // Fifteen in 24.8 fixed point, one step of 120.
    f.request(PointerRequest::AxisDiscrete {
        axis: 0,
        value: 15 * 256,
        discrete: 1,
    });
    assert!(matches!(
        f.request(PointerRequest::AxisStop { axis: 7 }),
        PointerReply::InvalidAxis
    ));
    assert!(matches!(
        f.request(PointerRequest::AxisSource { source: 9 }),
        PointerReply::InvalidAxisSource
    ));
    assert_eq!(f.location, Some((1, 2)));
    assert_eq!(f.buttons, vec![(272, true)]);
    assert!(f.has_axis);
    assert_eq!(f.vertical.value, 15 * 256);
    assert_eq!(f.vertical.v120, Some(120));
    assert!(matches!(
        f.request(PointerRequest::Frame),
        PointerReply::Flush
    ));
    assert_eq!(map_button_state(0), Some(false));
    assert_eq!(map_button_state(2), None);
    assert!(map_axis_source(3).is_some());
    assert!(map_axis_source(4).is_none());
}

#[test]
fn workspaces_are_announced_with_one_active() {
    let mut s = state();
    let told = s.announce_to_manager(100, 101, &vec![Some(11), Some(12), Some(13)]);
    assert_eq!(told.len(), 3);
    let active: Vec<u64> = told.iter().filter(|a| a.active).map(|a| a.handle).collect();
    assert_eq!(active, vec![12]);
    assert_eq!(told[0].name, "web");
    assert_eq!(told[1].name, "2");
    assert_eq!(told[2].coordinates, 2u32.to_ne_bytes().to_vec());
    assert_eq!(coordinates_bytes(1), 1u32.to_ne_bytes().to_vec());
    assert_eq!(workspace_name(&vec![], 3), "4");
    assert_eq!(workspace_name(&vec![], 255), "256");
    // Handles count from zero, workspaces from one.
    s.workspace_activate(13, 2);
    s.workspace_activate(13, 3);
    assert_eq!(s.workspace_commit(100), Some(3));
    assert_eq!(s.workspace_commit(100), None);
    let msgs = broadcast_active(&s, &vec![11, 12, 13, 100]);
    let on = msgs
        .iter()
        .filter(|m| matches!(m, WorkspaceMsg::State { active: true, .. }))
        .count();
    assert_eq!(on, 1);
    assert!(matches!(
        msgs.last(),
        Some(WorkspaceMsg::Done { manager: 100 })
    ));
    let enter = broadcast_output_enter(&s, &vec![101], &vec![100]);
    assert_eq!(enter.len(), 1);
    assert!(enter[0].enter);
    assert!(!broadcast_output_leave(&s, &vec![101], &vec![100])[0].enter);
    assert_eq!(
        notify_output_bound(&s, &vec![101], Some(&vec![100])).len(),
        1
    );
    s.forget_manager(100);
    assert!(broadcast_active(&s, &vec![11, 12, 13, 100]).is_empty());
}

#[test]
fn window_list_follows_the_window() {
    let mut s = state();
    s.foreign_toplevel_mgmt.managers.push(50);
    assert_eq!(s.managers_to_tell(&vec![50]), vec![50]);
    let info = s.window_info(7);
    assert_eq!(info.outputs, vec![1]);
    assert_eq!(info.state_bytes, state_array_bytes(false, false, true));
    s.announce_to_all_managers(7, &vec![51]);
    let same = s.sync_wlr_toplevel(7).unwrap();
    assert_eq!(same.handles, vec![51]);
    assert!(same.enter.is_empty() && same.leave.is_empty());
    s.desktop.space.elements[0].outputs = vec![2];
    let moved = s.sync_wlr_toplevel(7).unwrap();
    assert_eq!((moved.leave, moved.enter), (vec![1], vec![2]));
    assert_eq!(moved.state, state_array_bytes(false, false, true));
    match s.handle_request(window(7), true, HandleRequest::SetMaximized) {
        HandlePlan::Apply(Some(g)) => assert!(g.maximized),
        other => panic!("{other:?}"),
    }
    assert!(matches!(
        s.handle_request(window(7), true, HandleRequest::SetMaximized),
        HandlePlan::Nothing | HandlePlan::Apply(None)
    ));
    assert!(matches!(
        s.handle_request(
            window(7),
            true,
            HandleRequest::SetRectangle {
                width: -1,
                height: 0
            }
        ),
        HandlePlan::InvalidRectangle
    ));
    assert!(matches!(
        s.handle_request(window(7), false, HandleRequest::Close),
        HandlePlan::Nothing
    ));
    assert_eq!(s.foreign_toplevel_mgmt.close_toplevel(7), vec![51]);
    assert!(s.sync_wlr_toplevel(7).is_none());
}

#[test]
fn state_array_has_one_word_for_each_state() {
    assert!(state_array_bytes(false, false, false).is_empty());
    assert_eq!(
        state_array_bytes(true, false, true),
        [0u32.to_ne_bytes(), 2u32.to_ne_bytes()].concat()
    );
}

#[test]
fn layer_gives_the_focus_back() {
    let s = state();
    assert_eq!(new_layer_surface(Some(4), &s.desktop.space), Some(4));
    assert_eq!(new_layer_surface(None, &s.desktop.space), Some(1));
    let mut stack = vec![7, 99];
    assert_eq!(s.layer_destroyed(false, &mut stack), FocusReturn::Stay);
    // The window on top of the stack is gone.
    assert_eq!(
        s.layer_destroyed(true, &mut stack),
        FocusReturn::To(Some(7))
    );
    let takes = |s: &ShoestringWm, exclusive, has_focus| {
        layer_shell::handle_commit(s, Some(1), true, exclusive, has_focus)
            .unwrap()
            .take_focus
    };
    assert!(takes(&s, true, false));
    assert!(!takes(&s, true, true));
    assert!(!takes(&s, false, false));
    assert!(layer_shell::handle_commit(&s, None, false, true, false).is_none());
    let first = layer_shell::handle_commit(&s, Some(4), false, false, false).unwrap();
    assert_eq!((first.arrange, first.configure), (4, true));
}

#[test]
fn manager_always_draws_decorations() {
    for request in [
        DecorationRequest::New,
        DecorationRequest::SetMode(DecorationMode::ClientSide),
        DecorationRequest::UnsetMode,
    ] {
        assert_eq!(
            force_server_side(request, false).mode,
            DecorationMode::ServerSide
        );
    }
    assert!(force_server_side(DecorationRequest::UnsetMode, true).configure);
    assert!(!force_server_side(DecorationRequest::New, false).configure);
}

#[test]
fn first_commit_is_configured() {
    assert_eq!(handle_commit(Some(false), None), (true, false));
    assert_eq!(handle_commit(Some(true), None), (false, false));
    assert_eq!(handle_commit(None, Some(false)), (false, true));
}

#[test]
fn activation_needs_a_fresh_token() {
    let s = state();
    let fresh = TokenData {
        token: 77,
        age_ms: 10_000,
        has_serial: true,
        requester: None,
    };
    assert!(s.activation_is_trusted(fresh));
    assert!(!s.activation_is_trusted(TokenData {
        age_ms: 10_001,
        ..fresh
    }));
    let from_focused = TokenData {
        has_serial: false,
        requester: Some(7),
        ..fresh
    };
    assert!(s.activation_is_trusted(from_focused));
    let plan = s.request_activation(from_focused, Some(7));
    let asked = plan.activation.unwrap();
    assert_eq!((asked.window, asked.granted), (7, true));
    assert_eq!(plan.spent, 77);
    let nobody = s.request_activation(fresh, None);
    assert_eq!((nobody.spent, nobody.activation), (77, None));
    // A window in the background does not get the focus by itself.
    let background = TokenData {
        has_serial: false,
        requester: Some(8),
        ..fresh
    };
    let refused = s.request_activation(background, Some(8));
    assert!(!refused.activation.unwrap().granted);
    assert_eq!(refused.spent, 77);
}

#[test]
fn new_titles_reach_the_window_list() {
    let mut s = state();
    assert!(s
        .sync_foreign_toplevel(0, Some("shell".to_string()), Some("term".to_string()))
        .is_none());
    let change = s
        .sync_foreign_toplevel(0, Some("top".to_string()), Some("term".to_string()))
        .unwrap();
    assert_eq!(change.title, Some("top".to_string()));
    assert_eq!(change.app_id, None);
    assert_eq!(s.desktop.toplevels[0].title, "top");
}

#[test]
fn handle_is_told_of_its_own_workspace() {
    let mut s = state();
    // The second workspace is the active one, and the first has no handle.
    let told = s.announce_to_manager(100, 101, &vec![None, Some(12), Some(13)]);
    assert_eq!(told.len(), 2);
    assert_eq!((told[0].handle, told[0].active), (12, true));
    assert_eq!((told[1].handle, told[1].active), (13, false));
    assert_eq!(
        broadcast_active(&s, &vec![12, 13, 100]),
        vec![
            WorkspaceMsg::State {
                handle: 12,
                active: true
            },
            WorkspaceMsg::State {
                handle: 13,
                active: false
            },
            WorkspaceMsg::Done { manager: 100 },
        ]
    );
    s.desktop.workspaces.active = 3;
    let msgs = broadcast_active(&s, &vec![13, 100]);
    assert_eq!(
        msgs,
        vec![
            WorkspaceMsg::State {
                handle: 13,
                active: true
            },
            WorkspaceMsg::Done { manager: 100 },
        ]
    );
    // A handle that was not made asks for nothing.
    s.workspace_activate(11, 0);
    assert_eq!(s.workspace_commit(100), None);
    s.workspace_activate(12, 1);
    assert_eq!(s.workspace_commit(100), Some(2));
}
