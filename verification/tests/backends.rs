//! Cards, virtual and nested outputs, what is painted, and starting up.

use std::collections::HashMap;

use shoestring_wm::backend::headless::create_egl_display;
use shoestring_wm::backend::headless::env_flag;
use shoestring_wm::backend::headless::init_headless;
use shoestring_wm::backend::headless::render_node_path;
use shoestring_wm::backend::headless::virtual_size;
use shoestring_wm::backend::headless::Painter;
use shoestring_wm::backend::headless::TargetStep;
use shoestring_wm::backend::scene::CursorScope;
use shoestring_wm::backend::scene::Layer;
use shoestring_wm::backend::scene::Windows;
use shoestring_wm::backend::transform_from_config;
use shoestring_wm::backend::transform_name;
use shoestring_wm::backend::udev::choose_mode;
use shoestring_wm::backend::udev::choose_primary_gpu;
use shoestring_wm::backend::udev::connector_connected;
use shoestring_wm::backend::udev::device_changed;
use shoestring_wm::backend::udev::device_order;
use shoestring_wm::backend::udev::init_udev;
use shoestring_wm::backend::udev::resolve_vrr;
use shoestring_wm::backend::udev::CardProbe;
use shoestring_wm::backend::udev::Connector;
use shoestring_wm::backend::udev::ConnectorMode;
use shoestring_wm::backend::udev::DeviceAddError;
use shoestring_wm::backend::udev::OutputConfig;
use shoestring_wm::backend::udev::RenderOutcome;
use shoestring_wm::backend::udev::ScanEvent;
use shoestring_wm::backend::udev::Surface;
use shoestring_wm::backend::udev::UdevData;
use shoestring_wm::backend::udev::VrrSupport;
use shoestring_wm::backend::udev::WatchdogStep;
use shoestring_wm::backend::winit::init_winit;
use shoestring_wm::backend::winit::on_window_event;
use shoestring_wm::backend::winit::window_title;
use shoestring_wm::backend::winit::WindowEvent;
use shoestring_wm::backend::winit::WindowStep;
use shoestring_wm::backend::OutputTransform;
use shoestring_wm::backend::Transform;
use shoestring_wm::binds::BindingTable;
use shoestring_wm::config::Config;
use shoestring_wm::config::FocusMode;
use shoestring_wm::config::XkbSettings;
use shoestring_wm::dbus_iface::acquired;
use shoestring_wm::dbus_iface::close_notification;
use shoestring_wm::dbus_iface::dispatch;
use shoestring_wm::dbus_iface::get_capabilities;
use shoestring_wm::dbus_iface::parse_notify;
use shoestring_wm::dbus_iface::unknown_object;
use shoestring_wm::dbus_iface::CallHeader;
use shoestring_wm::dbus_iface::CloseReason;
use shoestring_wm::dbus_iface::NotifyHead;
use shoestring_wm::dbus_iface::NotifyHints;
use shoestring_wm::dbus_iface::NotifyParts;
use shoestring_wm::dbus_iface::Reply;
use shoestring_wm::dbus_iface::Route;
use shoestring_wm::dbus_iface::Urgency;
use shoestring_wm::dbus_iface::OBJECT_PATH;
use shoestring_wm::desktop::Desktop;
use shoestring_wm::desktop::OutputInfo;
use shoestring_wm::desktop::Workspaces;
use shoestring_wm::geometry::rect;
use shoestring_wm::geometry::Point;
use shoestring_wm::geometry::Size;
use shoestring_wm::handlers::output_management::ApplyStart;
use shoestring_wm::handlers::output_management::ConfigurationData;
use shoestring_wm::input_config::InputSettings;
use shoestring_wm::layout::set_fullscreen;
use shoestring_wm::layout::LayoutManager;
use shoestring_wm::layout::OutputArea;
use shoestring_wm::layout::Placed;
use shoestring_wm::layout::Space;
use shoestring_wm::layout::Window;
use shoestring_wm::startup::check_config;
use shoestring_wm::startup::choose_backend;
use shoestring_wm::startup::config_target;
use shoestring_wm::startup::drain_records;
use shoestring_wm::startup::drain_records_in;
use shoestring_wm::startup::first_client;
use shoestring_wm::startup::may_write_default;
use shoestring_wm::startup::notify_address;
use shoestring_wm::startup::session_integration;
use shoestring_wm::startup::spawn_client;
use shoestring_wm::startup::BackendKind;
use shoestring_wm::state::ShoestringWm;

fn mode(w: i32, refresh: i32, preferred: bool) -> ConnectorMode {
    ConnectorMode {
        size: Size { w, h: 1080 },
        refresh,
        preferred,
    }
}

fn connector(modes: Vec<ConnectorMode>) -> Connector {
    Connector {
        interface: "DP".to_string(),
        interface_id: 2,
        modes,
        make: None,
        model: Some("Panel".to_string()),
        serial: None,
    }
}

fn space_with(width: i32) -> Space {
    Space {
        elements: Vec::new(),
        outputs: vec![OutputArea {
            id: 1,
            geometry: Some(rect(0, 0, width, 1080)),
            zone: rect(0, 0, width, 1080),
        }],
    }
}

#[test]
fn preferred_mode_is_taken_and_else_the_first() {
    assert_eq!(
        choose_mode(&vec![mode(800, 60_000, false), mode(1920, 60_000, true)]),
        1
    );
    assert_eq!(choose_mode(&vec![mode(800, 60_000, false)]), 0);
}

#[test]
fn new_output_stands_to_the_right() {
    let plan = connector_connected(
        connector(vec![mode(1280, 60_000, true)]),
        &Vec::new(),
        1.0f64.to_bits(),
        &space_with(1920),
    );
    assert_eq!(plan.name, "DP-2");
    assert_eq!(plan.position, Point { x: 1920, y: 0 });
    assert_eq!(plan.model, "Panel");
    assert_eq!(plan.make, "Unknown");
    assert!(!plan.want_vrr);
    let bare = OutputConfig {
        position: None,
        scale_bits: None,
        transform: None,
        adaptive_sync: None,
    };
    let wanted = OutputConfig {
        position: Some(Point { x: -5, y: 7 }),
        scale_bits: Some(1.5f64.to_bits()),
        transform: Some(OutputTransform::_270),
        adaptive_sync: Some(true),
    };
    let placed = connector_connected(
        connector(vec![mode(1280, 60_000, true)]),
        &vec![("DP-1".to_string(), bare), ("DP-2".to_string(), wanted)],
        1.0f64.to_bits(),
        &space_with(1920),
    );
    assert_eq!(placed.position, Point { x: -5, y: 7 });
    assert_eq!(placed.scale_bits, 1.5f64.to_bits());
    assert_eq!(placed.transform, Some(Transform::_270));
    assert!(placed.want_vrr);
}

#[test]
fn adaptive_sync_needs_support() {
    assert!(resolve_vrr(true, VrrSupport::Supported, true));
    assert!(!resolve_vrr(true, VrrSupport::Supported, false));
    assert!(!resolve_vrr(true, VrrSupport::NotSupported, true));
    assert!(!resolve_vrr(false, VrrSupport::Supported, true));
}

#[test]
fn primary_card_comes_first() {
    assert_eq!(choose_primary_gpu(Some(3), &vec![Some(4)], "seat0"), Ok(3));
    assert_eq!(
        choose_primary_gpu(None, &vec![None, Some(4)], "seat0"),
        Ok(4)
    );
    assert!(choose_primary_gpu(None, &vec![None], "seat0")
        .unwrap_err()
        .contains("seat0"));
    assert_eq!(device_order(&vec![5, 6, 7], 6), vec![6, 5, 7]);
    assert!(init_udev("seat0", None, &Vec::new(), true).is_err());
}

fn card_with_surface() -> UdevData {
    let mut u = init_udev("seat0", Some(1), &Vec::new(), true).unwrap();
    let added = u
        .device_added(
            1,
            Ok(CardProbe {
                software: false,
                render_node: Some(128),
                syncobj: true,
            }),
        )
        .unwrap();
    assert!(added.advertise_syncobj);
    u.surface_ready(
        1,
        Surface {
            crtc: 40,
            output: 9,
            vrr: false,
        },
    );
    u
}

#[test]
fn surfaces_are_painted_while_the_session_is_here() {
    let mut u = card_with_surface();
    assert!(u.job_on(1, 40).is_some());
    assert!(u.job_on(1, 41).is_none());
    assert!(u.pause_session("7"));
    // What is painted while the session is away is not painted again.
    let away = u.after_render(RenderOutcome::Failed { test_failed: false }, Some(60_000));
    assert_eq!(away.again_us, None);
    assert!(matches!(u.watchdog("7", "7"), WatchdogStep::Wait));
    assert!(matches!(u.watchdog("2", "7"), WatchdogStep::Activate));
    assert!(u.activates());
    let again = u.do_activate_session();
    assert_eq!(again.len(), 1);
    assert_eq!((again[0].node, again[0].crtc), (1, 40));
    assert!(!u.activates());
    assert!(matches!(u.watchdog("2", "7"), WatchdogStep::Drop));
    let gone = u.connector_disconnected(1, 40).unwrap();
    assert_eq!(gone.output, 9);
    assert!(u.connector_disconnected(1, 40).is_none());
    assert_eq!(u.device_removed(1), Some(128));
}

#[test]
fn software_card_is_left_out() {
    let mut u = UdevData::new(1, true);
    let software = u.device_added(
        2,
        Ok(CardProbe {
            software: true,
            render_node: None,
            syncobj: false,
        }),
    );
    assert!(matches!(software, Err(DeviceAddError::NoRenderNode)));
    let broken = u.device_added(3, Err(DeviceAddError::DrmNode("x".to_string())));
    assert!(matches!(broken, Err(DeviceAddError::DrmNode(_))));
    assert!(u.cards.is_empty());
    // A card without a node for painting paints with its own.
    u.device_added(
        1,
        Ok(CardProbe {
            software: false,
            render_node: None,
            syncobj: false,
        }),
    )
    .unwrap();
    assert_eq!(u.painter_of(1), Some(1));
    assert_eq!(u.painter_of(2), None);
}

#[test]
fn promises_to_clients_are_made_once() {
    let mut u = UdevData::new(1, true);
    let mut card = |node: u64, syncobj: bool| {
        u.device_added(
            node,
            Ok(CardProbe {
                software: false,
                render_node: None,
                syncobj,
            }),
        )
        .unwrap()
    };
    let first = card(1, false);
    assert!(first.advertise_dmabuf && !first.advertise_syncobj);
    let second = card(2, true);
    assert!(!second.advertise_dmabuf && second.advertise_syncobj);
    let third = card(3, true);
    assert!(!third.advertise_dmabuf && !third.advertise_syncobj);
    u.device_plugged(11);
    u.device_plugged(12);
    u.device_unplugged(11);
    assert_eq!(u.input_devices, vec![12]);
}

#[test]
fn faults_of_cards_are_told() {
    let why = "gone";
    let all = [
        DeviceAddError::DeviceOpen(why.to_string()),
        DeviceAddError::DrmDevice(why.to_string()),
        DeviceAddError::GbmDevice(why.to_string()),
        DeviceAddError::DrmNode(why.to_string()),
        DeviceAddError::AddNode(why.to_string()),
    ];
    for e in &all {
        assert!(e.message().ends_with(why));
    }
    assert_eq!(
        DeviceAddError::NoRenderNode.message(),
        "Device has no usable render node"
    );
}

#[test]
fn failed_frame_is_tried_again() {
    let u = card_with_surface();
    let failed = u.after_render(RenderOutcome::Failed { test_failed: true }, Some(60_000));
    assert!(failed.reset_card);
    assert!(failed.again_us.is_some());
    let shown = u.after_render(RenderOutcome::Painted { queued: true }, Some(60_000));
    assert!(shown.counts && shown.again_us.is_none());
    let finish = u.frame_finish(1, 40, Some(77), Some(5), Some(60_000)).unwrap();
    assert_eq!(finish.hardware_time, Some(77));
    assert_eq!(finish.sequence, 5);
    assert!(u.frame_finish(1, 99, None, None, None).is_none());
}

#[test]
fn modes_are_changed_on_their_pipe() {
    let mut u = card_with_surface();
    let connectors = vec![None, Some(vec![mode(800, 60_000, false), mode(1920, 75_000, true)])];
    let change = u
        .change_output_mode(
            Some((1, 40)),
            &connectors,
            Size { w: 1920, h: 1080 },
            75_000,
        )
        .unwrap();
    assert_eq!((change.connector, change.mode), (1, 1));
    assert!(u
        .change_output_mode(Some((1, 40)), &connectors, Size { w: 5, h: 5 }, 75_000)
        .is_none());
    assert_eq!(
        u.gamma_target_for_output(Some((1, 40)), Some(256)),
        Some((1, 40, 256))
    );
    assert_eq!(u.gamma_target_for_output(Some((1, 40)), Some(0)), None);
    assert_eq!(u.disable_output(Some((1, 40))).map(|s| s.output), Some(9));
    assert!(u.disable_output(None).is_none());
}

#[test]
fn scan_keeps_connectors_with_a_pipe() {
    let changes = device_changed(&vec![
        ScanEvent::Connected {
            connector: 1,
            crtc: Some(40),
        },
        ScanEvent::Connected {
            connector: 2,
            crtc: None,
        },
        ScanEvent::Disconnected {
            connector: 3,
            crtc: Some(41),
        },
    ]);
    let seen: Vec<(u64, bool)> = changes.iter().map(|c| (c.connector, c.connected)).collect();
    assert_eq!(seen, vec![(1, true), (3, false)]);
}

#[test]
fn virtual_output_size_is_read() {
    assert_eq!(virtual_size(None), (1920, 1080));
    assert_eq!(virtual_size(Some("1280x720")), (1280, 720));
    assert_eq!(virtual_size(Some("0x720")), (1920, 1080));
    assert_eq!(virtual_size(Some("wide")), (1920, 1080));
    assert!(env_flag(Some("1")));
    assert!(!env_flag(Some("0")));
    assert!(!env_flag(None));
    assert_eq!(
        render_node_path(Some("/dev/x".to_string()), true, true, true),
        "/dev/x"
    );
    assert_eq!(
        render_node_path(None, false, true, true),
        "/dev/dri/renderD129"
    );
    assert!(matches!(create_egl_display(true, true), Painter::Software));
    assert!(matches!(create_egl_display(false, true), Painter::Card));
}

#[test]
fn virtual_output_is_repainted_by_age() {
    let size = Size { w: 640, h: 480 };
    let mut s = painted_state();
    let start = init_headless(
        &mut s,
        2,
        Some("640x480"),
        Size { w: 320, h: 240 },
        2.0f64.to_bits(),
        None,
        false,
        1,
    );
    let mut data = start.data;
    assert_eq!(start.setup.size, size);
    assert_eq!(start.setup.name, "HEADLESS-1");
    assert!(start.advertise);
    assert_eq!(start.came.event.name, "HEADLESS-1");
    assert_eq!((start.came.event.width, start.came.event.height), (640, 480));
    assert_eq!(start.came.event.scale_bits, 2.0f64.to_bits());
    assert_eq!(start.came.event.transform, "normal");
    assert_eq!(start.came.serial, 1);
    assert_eq!(s.output_management.serial, 1);
    assert_eq!(s.desktop.space.outputs.len(), 2);
    assert_eq!(
        s.desktop.space.outputs[1].geometry,
        Some(rect(0, 0, 320, 240))
    );
    assert!(matches!(data.render_once(None), TargetStep::Skip));
    assert!(matches!(
        data.render_once(Some(size)),
        TargetStep::Create { .. }
    ));
    data.target_created(size);
    assert!(matches!(
        data.render_once(Some(size)),
        TargetStep::Paint { age: 0 }
    ));
    data.painted();
    assert!(matches!(
        data.render_once(Some(size)),
        TargetStep::Paint { age: 1 }
    ));
    assert!(matches!(
        data.render_once(Some(Size { w: 1, h: 1 })),
        TargetStep::Create { .. }
    ));
}

#[test]
fn nested_window() {
    let mut s = painted_state();
    let (setup, came) = init_winit(
        &mut s,
        2,
        Size { w: 1600, h: 1000 },
        Size { w: 1600, h: 1000 },
        1.0f64.to_bits(),
    );
    assert_eq!(setup.name, "winit");
    assert_eq!(setup.transform, Transform::Flipped180);
    assert_eq!(came.event.transform, "normal");
    assert!(!came.event.adaptive_sync);
    assert_eq!(s.desktop.outputs[0].mode, Some((1600, 1000)));
    assert_eq!(window_title(Some("t".to_string())), "t");
    assert!(!window_title(None).is_empty());
    match on_window_event(WindowEvent::Resized(Size { w: 5, h: 6 })) {
        WindowStep::SetMode { size, .. } => assert_eq!(size, Size { w: 5, h: 6 }),
        other => panic!("{other:?}"),
    }
    assert!(matches!(
        on_window_event(WindowEvent::CloseRequested),
        WindowStep::Stop
    ));
}

#[test]
fn output_comes_and_goes() {
    let mut s = painted_state();
    s.output_management.managers.push(80);
    let plan = connector_connected(
        connector(vec![mode(1280, 60_000, true)]),
        &Vec::new(),
        1.0f64.to_bits(),
        &s.desktop.space,
    );
    let place = rect(plan.position.x, plan.position.y, 1280, 1080);
    s.map_output(
        OutputArea {
            id: 2,
            geometry: Some(place),
            zone: rect(0, 0, 1280, 1080),
        },
        OutputInfo {
            name: plan.name.clone(),
            geometry: Some(place),
            mode: Some((1280, 1080)),
            scale_bits: plan.scale_bits,
        },
    );
    assert_eq!(s.output_management.serial, 0);
    s.desktop.space.elements[0].outputs.push(2);
    s.announce_to_all_managers(7, &vec![70]);
    let up = s.connector_up(&plan, Size { w: 1280, h: 1080 }, true);
    assert_eq!(up.came.event.name, "DP-2");
    assert!(up.came.event.adaptive_sync);
    assert_eq!(up.came.managers, vec![80]);
    assert_eq!(up.came.serial, 1);
    assert_eq!(up.taskbars.len(), 1);
    let stale = ConfigurationData::new(up.came.serial);
    let down = s.connector_down(2, "DP-2");
    assert_eq!(down.gone.serial, 2);
    assert_eq!(down.gone.managers, vec![80]);
    assert_eq!(s.desktop.space.outputs.len(), 1);
    assert_eq!(s.desktop.space.outputs[0].id, 1);
    assert!(s.desktop.outputs.is_empty());
    assert_eq!(s.desktop.space.elements[0].outputs, vec![1]);
    assert_eq!(down.taskbars[0].leave, vec![2]);
    assert!(matches!(
        s.apply_configuration(Some(stale), false, true),
        ApplyStart::Cancelled
    ));
}

#[test]
fn output_that_is_mapped_again_keeps_its_rank() {
    let mut s = painted_state();
    let area = |id: u64, x: i32| OutputArea {
        id,
        geometry: Some(rect(x, 0, 100, 100)),
        zone: rect(0, 0, 100, 100),
    };
    let info = |name: &str| OutputInfo {
        name: name.to_string(),
        geometry: None,
        mode: None,
        scale_bits: 0,
    };
    s.map_output(area(2, 1920), info("B"));
    s.map_output(area(1, 50), info("B"));
    let ids: Vec<u64> = s.desktop.space.outputs.iter().map(|o| o.id).collect();
    assert_eq!(ids, vec![1, 2]);
    assert_eq!(
        s.desktop.space.outputs[0].geometry,
        Some(rect(50, 0, 100, 100))
    );
    assert_eq!(s.desktop.outputs.len(), 1);
}

#[test]
fn transforms_have_names_of_their_own() {
    let all = [
        OutputTransform::Normal,
        OutputTransform::_90,
        OutputTransform::_180,
        OutputTransform::_270,
        OutputTransform::Flipped,
        OutputTransform::Flipped90,
        OutputTransform::Flipped180,
        OutputTransform::Flipped270,
    ];
    let mut names: Vec<&str> = all
        .iter()
        .map(|t| transform_name(transform_from_config(*t)))
        .collect();
    assert_eq!(names[1], "90");
    assert_eq!(names[7], "flipped-270");
    names.sort();
    names.dedup();
    assert_eq!(names.len(), 8);
}

fn painted_state() -> ShoestringWm {
    let mut space = space_with(1920);
    space.elements.push(Placed {
        window: Window {
            id: 7,
            size: Size { w: 10, h: 10 },
        },
        loc: Point { x: 0, y: 0 },
        outputs: vec![1],
    });
    let desktop = Desktop {
        space,
        layout: LayoutManager::new(),
        outputs: Vec::new(),
        toplevels: Vec::new(),
        focused: None,
        name_overrides: HashMap::new(),
        workspaces: Workspaces {
            active: 1,
            count: 1,
            names: Vec::new(),
            assigned: Vec::new(),
        },
    };
    let config = Config {
        focus_mode: FocusMode::ClickToFocus,
        lock_command: String::new(),
        desktop_scroll_notches: 1,
        diagnostics_enabled: false,
        sample_interval_ms: 1000,
        xkb: XkbSettings {
            layout: String::new(),
            variant: String::new(),
            options: None,
            rules: String::new(),
            model: String::new(),
        },
        border_width: 2,
        input: InputSettings {
            tap_to_click: None,
            tap_and_drag: None,
            drag_lock: None,
            natural_scroll: None,
            scroll_button: None,
            accel_speed_bits: None,
            disable_while_typing: None,
            left_handed: None,
            middle_emulation: None,
            tap_button_map: None,
            scroll_method: None,
            click_method: None,
            accel_profile: None,
        },
    };
    ShoestringWm::new(desktop, BindingTable { binds: Vec::new() }, config)
}

#[test]
fn locked_output_shows_only_the_lock() {
    let mut s = painted_state();
    let open = s
        .compose_scene(1, true, CursorScope::Any, true, false)
        .layers(false);
    assert!(open.contains(&Layer::Cursor));
    assert!(open.contains(&Layer::Windows(Windows::All)));
    assert!(open.contains(&Layer::Borders));
    let plain = s
        .compose_scene(1, true, CursorScope::Any, false, false)
        .layers(false);
    assert_eq!(
        plain,
        vec![Layer::Cursor, Layer::Windows(Windows::All)]
    );
    s.lock(50, None);
    s.new_lock_surface(60, 1, Some((1920, 1080)), 1, None, None);
    let locked = s
        .compose_scene(1, true, CursorScope::Any, true, true)
        .layers(false);
    assert_eq!(locked, vec![Layer::Lock(60)]);
}

#[test]
fn cursor_shows_on_the_output_of_the_pointer() {
    let mut s = painted_state();
    s.map_output(
        OutputArea {
            id: 9,
            geometry: Some(rect(1920, 0, 800, 600)),
            zone: rect(0, 0, 800, 600),
        },
        OutputInfo {
            name: "DP-2".to_string(),
            geometry: Some(rect(1920, 0, 800, 600)),
            mode: Some((800, 600)),
            scale_bits: 1.0f64.to_bits(),
        },
    );
    let mut u = card_with_surface();
    u.surface_ready(
        1,
        Surface {
            crtc: 41,
            output: 1,
            vrr: true,
        },
    );
    let at = Point { x: 2000, y: 5 };
    let here = s.render_surface(&u, 1, 40, true, at).unwrap();
    let there = s.render_surface(&u, 1, 41, true, at).unwrap();
    assert_eq!(here.job.painter, 128);
    assert_eq!(
        here.scene.layers(false),
        vec![Layer::Cursor, Layer::Windows(Windows::All)]
    );
    assert_eq!(
        there.scene.layers(false),
        vec![Layer::Windows(Windows::All)]
    );
    assert!(!here.assert_vrr && there.assert_vrr);
    assert!(s.render_surface(&u, 1, 42, true, at).is_none());
    // Without a card, the panel is drawn too, and left out of captures.
    s.diag_overlay.toggle();
    let scene = s.redraw(9, true, Some(at));
    assert_eq!(
        scene.layers(false),
        vec![
            Layer::Overlay,
            Layer::Cursor,
            Layer::Borders,
            Layer::Windows(Windows::All)
        ]
    );
    assert_eq!(scene.layers(true), scene.layers(false)[1..].to_vec());
    assert!(!s.redraw(1, true, Some(at)).overlay);
}

#[test]
fn fullscreen_window_stands_alone() {
    let mut s = painted_state();
    let w = Window {
        id: 7,
        size: Size { w: 10, h: 10 },
    };
    set_fullscreen(
        &s.desktop.space,
        &mut s.desktop.layout,
        w,
        rect(0, 0, 1920, 1080),
    );
    let layers = s
        .compose_scene(1, false, CursorScope::Any, true, false)
        .layers(false);
    assert!(layers.contains(&Layer::Windows(Windows::Fullscreen(7))));
    assert!(!layers.contains(&Layer::Borders));
}

#[test]
fn backend_is_guessed_from_the_session() {
    assert_eq!(choose_backend(None, true, false), BackendKind::Winit);
    assert_eq!(choose_backend(None, false, true), BackendKind::Winit);
    assert_eq!(choose_backend(None, false, false), BackendKind::Tty);
    assert_eq!(
        choose_backend(Some(BackendKind::Tty), true, true),
        BackendKind::Tty
    );
    assert!(session_integration(BackendKind::Tty));
    assert!(!session_integration(BackendKind::Winit));
}

#[test]
fn command_lines_are_split_at_spaces() {
    let c = spawn_client("  foot  -e\tvim ").unwrap();
    assert_eq!(c.program, "foot");
    assert_eq!(c.args, vec!["-e".to_string(), "vim".to_string()]);
    assert!(spawn_client("   ").is_none());
}

#[test]
fn records_survive_partial_reads() {
    let mut left: Vec<u8> = Vec::new();
    left.extend_from_slice(&12i32.to_ne_bytes());
    left.extend_from_slice(&(-3i32).to_ne_bytes());
    left.extend_from_slice(&13i32.to_ne_bytes());
    let got = drain_records(&mut left);
    assert_eq!(got.len(), 1);
    assert_eq!((got[0].pid, got[0].status), (12, -3));
    assert_eq!(left, 13i32.to_ne_bytes().to_vec());
}

#[test]
fn notify_address_has_room_for_its_end() {
    assert_eq!(
        notify_address(&b"/run/n".to_vec(), 108),
        Some(b"/run/n\0".to_vec())
    );
    // An abstract name begins with a zero byte.
    assert_eq!(
        notify_address(&b"@abc".to_vec(), 108),
        Some(b"\0abc".to_vec())
    );
    assert_eq!(notify_address(&vec![b'a'; 108], 108), None);
    assert_eq!(notify_address(&Vec::new(), 108), None);
}

#[test]
fn terminal_is_started_where_nothing_is_asked_for() {
    assert_eq!(
        first_client(Some("alacritty".to_string()), true).as_deref(),
        Some("alacritty")
    );
    assert_eq!(
        first_client(Some("alacritty".to_string()), false).as_deref(),
        Some("alacritty")
    );
    assert_eq!(first_client(None, true).as_deref(), Some("weston-terminal"));
    assert_eq!(first_client(None, false), None);
}

#[test]
fn configuration_file_is_found_and_checked() {
    assert_eq!(
        config_target(Some("/a".to_string()), Some("/b".to_string())),
        Ok("/a".to_string())
    );
    assert_eq!(config_target(None, Some("/b".to_string())), Ok("/b".to_string()));
    assert!(config_target(None, None).is_err());
    assert!(may_write_default("/a", true, false).is_err());
    assert!(may_write_default("/a", true, true).is_ok());
    assert!(may_write_default("/a", false, false).is_ok());
    assert!(check_config("/a", false, Ok(3), 0).is_err());
    assert!(check_config("/a", true, Err("bad".to_string()), 0)
        .unwrap_err()
        .contains("bad"));
    // Warnings are counted and are no fault.
    assert_eq!(
        check_config("/a", true, Ok(3), 2),
        Ok("/a: OK — 3 binding(s), 2 warning(s)".to_string())
    );
}

fn call(member: &str) -> CallHeader {
    CallHeader {
        is_call: true,
        object: Some(OBJECT_PATH.to_string()),
        interface: None,
        member: Some(member.to_string()),
    }
}

#[test]
fn bus_calls_are_routed() {
    assert_eq!(dispatch(&call("Notify")), Route::Notify);
    assert_eq!(dispatch(&call("Introspect")), Route::Introspect);
    assert_eq!(dispatch(&call("Nope")), Route::UnknownMethod);
    let elsewhere = CallHeader {
        object: Some("/".to_string()),
        ..call("Notify")
    };
    assert_eq!(dispatch(&elsewhere), Route::UnknownObject);
    let signal = CallHeader {
        is_call: false,
        ..call("Notify")
    };
    assert_eq!(dispatch(&signal), Route::Ignore);
    match get_capabilities().reply {
        Some(Reply::Capabilities(c)) => assert!(c.contains(&"body".to_string())),
        other => panic!("{other:?}"),
    }
    match unknown_object("/x").reply {
        Some(Reply::Error { name, message }) => {
            assert!(name.ends_with("UnknownObject"));
            assert!(message.contains("/x"));
        }
        other => panic!("{other:?}"),
    }
    assert!(acquired(1).is_ok());
    assert!(acquired(3).is_err());
}

#[test]
fn notifications_are_read_and_closed() {
    let head = NotifyHead {
        app_name: "mail".to_string(),
        replaces_id: 0,
        app_icon: String::new(),
        summary: "hi".to_string(),
        body: "there".to_string(),
    };
    let args = parse_notify(NotifyParts {
        head: Ok(head),
        actions: Ok(()),
        hints: Ok(NotifyHints {
            urgency: None,
            image_path: None,
        }),
        expire_timeout: Ok(-1),
    })
    .unwrap();
    assert_eq!(args.summary, "hi");
    assert_eq!(args.urgency, Urgency::Normal);
    assert!(parse_notify(NotifyParts {
        head: Err("bad head".to_string()),
        actions: Ok(()),
        hints: Err("bad hints".to_string()),
        expire_timeout: Ok(0),
    })
    .unwrap_err()
    .contains("bad head"));
    let closed = close_notification(Ok(4), true);
    assert_eq!(closed.signals.len(), 1);
    assert_eq!(closed.signals[0].id, 4);
    assert_eq!(closed.signals[0].reason, CloseReason::ClosedByCall);
    assert!(close_notification(Ok(4), false).signals.is_empty());
}

#[test]
fn records_are_read_in_either_order() {
    let bytes = vec![0, 0, 0, 12, 0, 0, 1, 0, 5, 0, 0, 0, 255, 255, 255, 255, 7];
    let mut left = bytes.clone();
    let high = drain_records_in(&mut left, false);
    assert_eq!(high.len(), 2);
    assert_eq!((high[0].pid, high[0].status), (12, 256));
    assert_eq!((high[1].pid, high[1].status), (0x0500_0000, -1));
    assert_eq!(left, vec![7]);
    let mut left = bytes;
    let low = drain_records_in(&mut left, true);
    assert_eq!((low[0].pid, low[0].status), (0x0c00_0000, 0x0001_0000));
    assert_eq!((low[1].pid, low[1].status), (5, -1));
    assert_eq!(left, vec![7]);
}
