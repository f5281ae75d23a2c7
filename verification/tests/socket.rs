//! The control socket: lines, requests, subscribers, frames and gamma.

use std::collections::HashMap;

use shoestring_wm::binds::BindingTable;
use shoestring_wm::capture_stream::clamp_to_buffer;
use shoestring_wm::capture_stream::readback;
use shoestring_wm::capture_stream::to_remote_rect;
use shoestring_wm::capture_stream::CaptureSub;
use shoestring_wm::capture_stream::Prelude;
use shoestring_wm::capture_stream::RemoteRect;
use shoestring_wm::config::Action;
use shoestring_wm::config::Config;
use shoestring_wm::config::FocusMode;
use shoestring_wm::config::XkbSettings;
use shoestring_wm::desktop::Desktop;
use shoestring_wm::desktop::OutputInfo;
use shoestring_wm::desktop::Toplevel;
use shoestring_wm::desktop::Workspaces;
use shoestring_wm::gamma_control::apply_gamma;
use shoestring_wm::gamma_control::plan_gamma;
use shoestring_wm::gamma_control::clone_ramp;
use shoestring_wm::gamma_control::read_ramp;
use shoestring_wm::gamma_control::ApplyStep;
use shoestring_wm::gamma_control::GammaOwner;
use shoestring_wm::gamma_control::GammaDone;
use shoestring_wm::gamma_control::GammaRamp;
use shoestring_wm::gamma_control::GammaReadError;
use shoestring_wm::gamma_control::GammaSet;
use shoestring_wm::gamma_control::read_ramp_in;
use shoestring_wm::gamma_control::GammaTarget;
use shoestring_wm::gamma_control::TableOutcome;
use shoestring_wm::geometry::rect;
use shoestring_wm::geometry::Point;
use shoestring_wm::geometry::Size;
use shoestring_wm::input_config::InputSettings;
use shoestring_wm::ipc::find_windows;
use shoestring_wm::ipc::handle_readable;
use shoestring_wm::ipc::next_line;
use shoestring_wm::ipc::reset_gamma_response;
use shoestring_wm::ipc::set_gamma_response;
use shoestring_wm::ipc::Client;
use shoestring_wm::ipc::ClientId;
use shoestring_wm::ipc::GateEvent;
use shoestring_wm::ipc::NextLine;
use shoestring_wm::ipc::Plan;
use shoestring_wm::ipc::ReadOutcome;
use shoestring_wm::ipc::ReadStep;
use shoestring_wm::ipc::Region;
use shoestring_wm::ipc::Request;
use shoestring_wm::ipc::Response;
use shoestring_wm::ipc::Server;
use shoestring_wm::ipc_client::open_event_stream;
use shoestring_wm::ipc_client::query_workspaces;
use shoestring_wm::ipc_client::read_line;
use shoestring_wm::ipc_client::DrainStep;
use shoestring_wm::ipc_client::LineRead;
use shoestring_wm::ipc_client::ServerLine;
use shoestring_wm::layout::LayoutManager;
use shoestring_wm::layout::OutputArea;
use shoestring_wm::layout::Placed;
use shoestring_wm::layout::Space;
use shoestring_wm::layout::Window;
use shoestring_wm::state::ShoestringWm;

fn toplevel(id: u64, title: &str, app_id: &str) -> Toplevel {
    Toplevel {
        window: Window {
            id,
            size: Size { w: 400, h: 300 },
        },
        handle: format!("id-{id}"),
        title: title.to_string(),
        app_id: app_id.to_string(),
        sticky: false,
    }
}

fn placed(id: u64) -> Placed {
    Placed {
        window: Window {
            id,
            size: Size { w: 400, h: 300 },
        },
        loc: Point { x: 10, y: 20 },
        outputs: vec![1],
    }
}

fn manager() -> ShoestringWm {
    let desktop = Desktop {
        space: Space {
            elements: vec![placed(7), placed(8)],
            outputs: vec![OutputArea {
                id: 1,
                geometry: Some(rect(0, 0, 1920, 1080)),
                zone: rect(0, 0, 1920, 1080),
            }],
        },
        layout: LayoutManager::new(),
        outputs: vec![OutputInfo {
            name: "DP-1".to_string(),
            geometry: Some(rect(0, 0, 1920, 1080)),
            mode: Some((3840, 2160)),
            scale_bits: 2.0f64.to_bits(),
        }],
        toplevels: vec![
            toplevel(8, "vim: notes", "term"),
            toplevel(7, "Inbox (3)", "mail"),
        ],
        focused: Some(Window {
            id: 8,
            size: Size { w: 400, h: 300 },
        }),
        name_overrides: HashMap::new(),
        workspaces: Workspaces {
            active: 1,
            count: 2,
            names: vec!["web".to_string()],
            assigned: vec![(7, 1), (8, 1)],
        },
    };
    let config = Config {
        focus_mode: FocusMode::ClickToFocus,
        lock_command: "locker".to_string(),
        desktop_scroll_notches: 1,
        diagnostics_enabled: false,
        sample_interval_ms: 1000,
        xkb: XkbSettings {
            layout: "us".to_string(),
            variant: String::new(),
            options: None,
            rules: String::new(),
            model: String::new(),
        },
        border_width: 2,
        input: InputSettings {
            tap_to_click: None,
            tap_and_drag: None,
            drag_lock: None,
            natural_scroll: None,
            scroll_button: None,
            accel_speed_bits: None,
            disable_while_typing: None,
            left_handed: None,
            middle_emulation: None,
            tap_button_map: None,
            scroll_method: None,
            click_method: None,
            accel_profile: None,
        },
    };
    ShoestringWm::new(desktop, BindingTable { binds: Vec::new() }, config)
}

fn message_of(p: Plan) -> String {
    match p {
        Plan::Reply(Response::Error { message }) => message,
        other => panic!("no refusal: {other:?}"),
    }
}

#[test]
fn lines_do_not_depend_on_how_they_arrive() {
    let text = "{\"a\":1}\nfünf\nrest".as_bytes();
    let mut whole = text.to_vec();
    let mut lines = Vec::new();
    while let NextLine::Line(l) = next_line(&mut whole) {
        lines.push(l);
    }
    assert_eq!(lines, vec!["{\"a\":1}".to_string(), "fünf".to_string()]);
    assert_eq!(whole, b"rest".to_vec());
    // Byte by byte the same lines come out.
    let mut parts: Vec<u8> = Vec::new();
    let mut again = Vec::new();
    for b in text {
        parts.push(*b);
        while let NextLine::Line(l) = next_line(&mut parts) {
            again.push(l);
        }
    }
    assert_eq!(again, lines);
    assert_eq!(parts, whole);
}

#[test]
fn reading_hands_out_lines_or_says_why_not() {
    let mut c = Client::new();
    assert!(matches!(
        handle_readable(&mut c, ReadOutcome::Data(b"{\"x\"".to_vec())),
        ReadStep::Wait
    ));
    match handle_readable(&mut c, ReadOutcome::Data(b":1}\nmore".to_vec())) {
        ReadStep::Parse(l) => assert_eq!(l, "{\"x\":1}"),
        other => panic!("{other:?}"),
    }
    assert_eq!(c.read_buf, b"more".to_vec());
    match handle_readable(&mut c, ReadOutcome::Data(vec![0xff, b'\n'])) {
        ReadStep::Reply(Response::Error { message }) => {
            assert_eq!(message, "request is not valid utf-8")
        }
        other => panic!("{other:?}"),
    }
    assert!(matches!(
        handle_readable(&mut c, ReadOutcome::WouldBlock),
        ReadStep::Wait
    ));
    assert!(matches!(
        handle_readable(&mut c, ReadOutcome::Eof),
        ReadStep::Close
    ));
    assert!(matches!(
        handle_readable(&mut c, ReadOutcome::Failed),
        ReadStep::Close
    ));
}

#[test]
fn plain_questions_are_answered() {
    let mut m = manager();
    let mut c = Client::new();
    match m.answer_request(&mut c, Ok(Request::Workspaces)) {
        Plan::Reply(Response::Workspaces {
            active,
            count,
            names,
        }) => {
            assert_eq!((active, count), (1, 2));
            assert_eq!(names, vec!["web".to_string()]);
        }
        other => panic!("{other:?}"),
    }
    match m.answer_request(&mut c, Ok(Request::Windows)) {
        Plan::Reply(Response::Windows { windows }) => {
            assert_eq!(windows.len(), 2);
            assert_eq!(windows[0].id, "id-8");
            assert!(windows[0].focused);
            assert_eq!(windows[0].z, Some(1));
            assert_eq!(windows[1].z, Some(0));
        }
        other => panic!("{other:?}"),
    }
    match m.answer_request(&mut c, Ok(Request::Outputs)) {
        Plan::Reply(Response::Outputs { outputs }) => {
            assert_eq!(outputs[0].name, "DP-1");
            assert_eq!((outputs[0].width, outputs[0].height), (3840, 2160));
        }
        other => panic!("{other:?}"),
    }
    match m.answer_request(&mut c, Ok(Request::GetTree)) {
        Plan::Reply(Response::Tree {
            outputs,
            workspaces,
            minimized,
        }) => {
            assert_eq!(outputs[0].w, 1920);
            // Only the active workspace and those with windows are listed.
            assert_eq!(workspaces.len(), 1);
            assert!(workspaces[0].focused);
            // From the bottom of the stack upward.
            let ids: Vec<&str> = workspaces[0].windows.iter().map(|w| w.id.as_str()).collect();
            assert_eq!(ids, vec!["id-7", "id-8"]);
            assert!(minimized.is_empty());
        }
        other => panic!("{other:?}"),
    }
    assert_eq!(
        message_of(m.answer_request(&mut c, Err("eof".to_string()))),
        "invalid request json: eof"
    );
}

#[test]
fn automation_is_gated() {
    let mut m = manager();
    let mut c = Client::new();
    m.automation_enabled = false;
    let refused = message_of(m.answer_request(
        &mut c,
        Ok(Request::InjectText {
            text: "a".to_string(),
        }),
    ));
    assert!(refused.contains("automation"));
    m.screen_capture_enabled = false;
    match m.answer_request(&mut c, Ok(Request::SetAutomation { enabled: true })) {
        Plan::ReplyAndEmit(Response::Automation { enabled: true }, events, _) => {
            assert!(matches!(
                events[0],
                GateEvent::AutomationChanged { enabled: true }
            ));
        }
        other => panic!("{other:?}"),
    }
    assert!(m.automation_enabled);
    // Asking again changes nothing and tells nobody.
    match m.answer_request(&mut c, Ok(Request::SetAutomation { enabled: true })) {
        Plan::ReplyAndEmit(_, events, _) => assert!(events.is_empty()),
        other => panic!("{other:?}"),
    }
    assert!(matches!(
        m.answer_request(
            &mut c,
            Ok(Request::InjectClick {
                button: "left".to_string(),
                x: None,
                y: None
            })
        ),
        Plan::Click(_)
    ));
    assert_eq!(
        message_of(m.answer_request(
            &mut c,
            Ok(Request::InjectClick {
                button: "left".to_string(),
                x: Some(0),
                y: None
            })
        )),
        "inject_click: x and y must be passed together"
    );
}

#[test]
fn gates_read_back_and_asking_changes_nothing() {
    let mut m = manager();
    for enabled in [true, false, true] {
        let mut c = Client::new();
        m.answer_request(&mut c, Ok(Request::SetAutomation { enabled }));
        assert!(matches!(
            m.answer_request(&mut c, Ok(Request::AutomationStatus)),
            Plan::Reply(Response::Automation { enabled: e }) if e == enabled
        ));
        assert!(matches!(
            m.answer_request(&mut c, Ok(Request::ScreenCaptureStatus)),
            Plan::Reply(Response::ScreenCapture { enabled: e }) if e == enabled
        ));
    }
    let mut c = Client::new();
    m.answer_request(&mut c, Ok(Request::SetScreenCapture { enabled: false }));
    assert!(m.automation_enabled);
    assert!(!m.screen_capture_enabled);
    let queued = m.key_queue.len();
    m.automation_enabled = false;
    m.answer_request(
        &mut c,
        Ok(Request::InjectText {
            text: "a".to_string(),
        }),
    );
    assert_eq!(m.key_queue.len(), queued);
    assert!(!c.spent);
    c.wrote_response(false);
    assert!(!c.spent);
    c.wrote_response(true);
    assert!(c.spent);
}

#[test]
fn deferred_answers_use_the_connection_up() {
    let mut m = manager();
    m.automation_enabled = true;
    m.screen_capture_enabled = true;
    let mut c = Client::new();
    assert_eq!(
        message_of(m.answer_request(
            &mut c,
            Ok(Request::RunCommand {
                argv: Vec::new(),
                timeout_ms: None
            })
        )),
        "run_command: argv must be non-empty"
    );
    assert_eq!(
        message_of(m.answer_request(
            &mut c,
            Ok(Request::Screenshot {
                output: None,
                region: Some(Region {
                    x: 0,
                    y: 0,
                    w: 1,
                    h: 1
                })
            })
        )),
        "screenshot: region requires output (coordinates are output-relative)"
    );
    assert!(!c.spent);
    assert!(matches!(
        m.answer_request(
            &mut c,
            Ok(Request::RunCommand {
                argv: vec!["true".to_string()],
                timeout_ms: None
            })
        ),
        Plan::RunCommand { .. }
    ));
    assert!(c.spent);
    assert!(matches!(
        m.answer_request(&mut c, Ok(Request::Workspaces)),
        Plan::HangUp
    ));
}

#[test]
fn actions_come_over_the_socket() {
    let mut m = manager();
    m.automation_enabled = true;
    let mut c = Client::new();
    assert!(matches!(
        m.answer_request(
            &mut c,
            Ok(Request::DispatchAction {
                action: Ok(Action::TileLeft)
            })
        ),
        Plan::Dispatch(Action::TileLeft)
    ));
    let bad = message_of(m.answer_request(
        &mut c,
        Ok(Request::DispatchAction {
            action: Err("no such action".to_string()),
        }),
    ));
    assert!(bad.ends_with("no such action"));
}

#[test]
fn windows_are_found_by_pattern() {
    let m = manager();
    let found = find_windows(&m.desktop, Some("^In.*\\(\\d\\)$"), None).unwrap();
    assert_eq!(found.len(), 1);
    assert_eq!(found[0].id, "id-7");
    assert_eq!(
        find_windows(&m.desktop, Some("."), Some("^term$")).unwrap()[0].id,
        "id-8"
    );
    assert!(find_windows(&m.desktop, Some("vim"), Some("mail"))
        .unwrap()
        .is_empty());
    assert!(find_windows(&m.desktop, Some("("), None)
        .unwrap_err()
        .contains("title"));
    assert!(find_windows(&m.desktop, None, Some("["))
        .unwrap_err()
        .contains("app_id"));
}

#[test]
fn chosen_name_is_what_a_search_sees() {
    let mut m = manager();
    m.desktop.name_overrides.insert(8, "Notes".to_string());
    assert_eq!(
        find_windows(&m.desktop, Some("^Notes$"), None).unwrap()[0].id,
        "id-8"
    );
    assert!(find_windows(&m.desktop, Some("vim"), None)
        .unwrap()
        .is_empty());
}

#[test]
fn subscribers_get_events_and_metrics() {
    let mut s = Server::new();
    let a = s.accept_client();
    let b = s.accept_client();
    assert_ne!(a, b);
    assert_eq!(s.client_count(), 2);
    assert!(!s.clients[0].1.joined_events(true));
    assert!(!s.clients[1].1.joined_metrics(true, 1000));
    assert_eq!(s.subscriber_count(), 2);
    assert_eq!(s.event_targets(), vec![a]);
    assert_eq!(s.metrics_targets(5_000), vec![b]);
    s.pushed(b, 5_000);
    assert!(s.metrics_targets(5_999).is_empty());
    assert_eq!(s.metrics_targets(6_000), vec![b]);
    let mut m = manager();
    m.ipc = Some(s);
    assert_eq!(m.emit_ipc(), vec![a]);
    m.drop_failed_clients(&vec![a]);
    assert!(m.emit_ipc().is_empty());
    assert_eq!(m.push_metrics_to_subscribers(9_000), vec![b]);
    // A failed write ends a subscription before it begins.
    assert!(Client::new().joined_events(false));
}

#[test]
fn gamma_answers() {
    assert!(matches!(
        set_gamma_response(Some(Ok(2))),
        Response::Success
    ));
    assert!(matches!(
        set_gamma_response(None),
        Response::Error { .. }
    ));
    assert!(matches!(reset_gamma_response(true), Response::Success));
    assert!(matches!(
        reset_gamma_response(false),
        Response::Error { .. }
    ));
}

#[test]
fn client_reads_answers_and_events() {
    let mut buf = Vec::new();
    assert!(matches!(read_line(&mut buf, Some(b'o')), LineRead::Pending));
    assert!(matches!(read_line(&mut buf, Some(b'k')), LineRead::Pending));
    match read_line(&mut buf, Some(b'\n')) {
        LineRead::Line(l) => assert_eq!(l, "ok"),
        other => panic!("{other:?}"),
    }
    let mut empty = Vec::new();
    assert!(matches!(read_line(&mut empty, None), LineRead::Closed));
    let answer = ServerLine::Answer(Response::Workspaces {
        active: 2,
        count: 4,
        names: Vec::new(),
    });
    assert_eq!(query_workspaces(&answer, "-"), Ok((2, 4)));
    assert!(query_workspaces(&ServerLine::Closed, "-").is_err());
    assert!(query_workspaces(&ServerLine::Malformed, "-").is_err());
    assert!(query_workspaces(&ServerLine::Answer(Response::Success), "Ok")
        .unwrap_err()
        .contains("Ok"));
    let mut stream =
        open_event_stream(&ServerLine::Answer(Response::Success), "Ok").unwrap();
    assert!(matches!(
        stream.on_read(ReadOutcome::Data(b"one\n\ntwo\nth".to_vec())),
        DrainStep::Read
    ));
    assert!(matches!(
        stream.on_read(ReadOutcome::WouldBlock),
        DrainStep::Lines
    ));
    assert_eq!(
        stream.drain_events(),
        Ok(vec!["one".to_string(), "two".to_string()])
    );
    assert_eq!(stream.buf, b"th".to_vec());
}

#[test]
fn damage_is_clipped_and_named() {
    assert_eq!(
        clamp_to_buffer(rect(-5, 10, 20, 2000), 100, 50),
        Some(rect(0, 10, 15, 40))
    );
    assert_eq!(clamp_to_buffer(rect(100, 0, 5, 5), 100, 50), None);
    assert_eq!(
        to_remote_rect(rect(1, 2, 3, 4)),
        RemoteRect {
            x: 1,
            y: 2,
            w: 3,
            h: 4
        }
    );
    let px: Vec<u8> = (0..16).collect();
    assert_eq!(readback(&px, 2, 2), Ok(px.clone()));
    assert!(readback(&px, 3, 2).is_err());
}

#[test]
fn stream_begins_with_a_whole_frame() {
    let mut sub = CaptureSub::new("DP-1".to_string());
    let first = sub.plan(100, 50, &Some(Vec::new())).unwrap();
    assert!(matches!(
        first.prelude,
        Prelude::Ready {
            width: 100,
            height: 50
        }
    ));
    assert_eq!(first.regions, vec![rect(0, 0, 100, 50)]);
    sub.sent(100, 50, first.seq);
    // Without damage nothing is sent.
    assert!(sub.plan(100, 50, &Some(Vec::new())).is_none());
    let second = sub
        .plan(100, 50, &Some(vec![rect(10, 10, 5, 5)]))
        .unwrap();
    assert!(matches!(second.prelude, Prelude::Nothing));
    assert_eq!(second.regions, vec![rect(10, 10, 5, 5)]);
    assert_eq!(second.seq, first.seq + 1);
    sub.sent(100, 50, second.seq);
    let resized = sub.plan(200, 50, &Some(Vec::new())).unwrap();
    assert!(matches!(
        resized.prelude,
        Prelude::Resize {
            width: 200,
            height: 50
        }
    ));
    assert_eq!(resized.regions, vec![rect(0, 0, 200, 50)]);
}

#[test]
fn frames_go_to_those_who_watch_the_output() {
    let mut m = manager();
    m.screen_capture_enabled = true;
    let mut s = Server::new();
    let a = s.accept_client();
    let b = s.accept_client();
    assert!(!s.clients[0].1.joined_capture(true, "DP-1".to_string()));
    assert!(!s.clients[1].1.joined_capture(true, "HDMI-1".to_string()));
    m.ipc = Some(s);
    let frames = m.push_capture("DP-1", Some((64, 32)), &None);
    assert_eq!(frames.len(), 1);
    assert_eq!(frames[0].client, a);
    m.capture_written(a, 64, 32, frames[0].plan.seq, true);
    assert!(m
        .push_capture("DP-1", Some((64, 32)), &Some(Vec::new()))
        .is_empty());
    // Without consent every stream and every session ends.
    m.new_capture_session(7);
    let mut asker = Client::new();
    let request = Request::SetScreenCapture { enabled: false };
    match m.answer_request(&mut asker, Ok(request)) {
        Plan::ReplyAndEmit(_, _, mut gone) => {
            gone.clients.sort_by_key(|c| c.0);
            assert_eq!(gone.clients, vec![a, b]);
            assert_eq!(gone.sessions, vec![7]);
        }
        other => panic!("{other:?}"),
    }
    assert_eq!(m.ipc.as_ref().map(|s| s.client_count()), Some(0));
    assert!(m.ext_screencopy.sessions.is_empty());
}

fn target(name: &str) -> GammaTarget {
    GammaTarget {
        name: name.to_string(),
        node: 1,
        crtc: 40,
        size: 4,
    }
}

#[test]
fn identity_ramp_spans_the_whole_range() {
    let g = GammaRamp::identity(4);
    assert_eq!(g.red, vec![0, 21845, 43690, 65535]);
    assert_eq!(g.green, g.red);
    assert_eq!(g.blue, g.red);
    assert_eq!(GammaRamp::identity(1).red.len(), 1);
}

#[test]
fn ramp_is_read_in_the_machines_order() {
    let mut bytes = Vec::new();
    for v in [1u16, 2, 3, 4, 5, 6] {
        bytes.extend_from_slice(&v.to_ne_bytes());
    }
    let g = read_ramp(&bytes, 2).unwrap();
    assert_eq!(g.red, vec![1, 2]);
    assert_eq!(g.green, vec![3, 4]);
    assert_eq!(g.blue, vec![5, 6]);
    assert!(matches!(
        read_ramp(&bytes[..11].to_vec(), 2),
        Err(GammaReadError::BadSize)
    ));
}

#[test]
fn original_ramp_outlives_its_holders() {
    let mut m = manager();
    let original = GammaRamp::identity(4);
    assert!(m.gamma_control.needs_read("DP-1"));
    assert_eq!(
        m.create_control(Some(&target("DP-1")), 5, Some(GammaRamp::identity(4))),
        Some(None)
    );
    assert!(!m.gamma_control.needs_read("DP-1"));
    let at = m.gamma_control.holder("DP-1", 5).unwrap();
    let dark = GammaRamp {
        red: vec![0; 4],
        green: vec![0; 4],
        blue: vec![0; 4],
    };
    assert!(matches!(
        m.gamma_table(at, Ok(dark), true),
        TableOutcome::Stored
    ));
    m.create_control(Some(&target("DP-2")), 7, Some(GammaRamp::identity(4)));
    assert_eq!(m.reapply_all_gamma(), vec![0]);
    let copy = clone_ramp(&m.gamma_control.controls[0].original);
    assert_eq!(copy.blue, original.blue);
    m.release_gamma_control("DP-2", 7);
    // Another client takes over: the first is told, the ramp read once is kept.
    assert_eq!(
        m.create_control(Some(&target("DP-1")), 6, None),
        Some(Some(5))
    );
    assert!(m.release_gamma_control("DP-1", 5).is_none());
    let back = m.release_gamma_control("DP-1", 6).unwrap();
    assert_eq!(back.original.red, original.red);
    assert!(m.gamma_control.controls.is_empty());
}

#[test]
fn bad_table_ends_the_control() {
    let mut m = manager();
    m.create_control(Some(&target("DP-1")), 5, Some(GammaRamp::identity(4)));
    assert!(matches!(
        m.gamma_table(0, Err(GammaReadError::BadSize), false),
        TableOutcome::ProtocolError
    ));
    assert!(matches!(
        m.gamma_table(0, Err(GammaReadError::Io), false),
        TableOutcome::Failed(_)
    ));
    assert_eq!(m.create_control(None, 9, None), None);
}

#[test]
fn gamma_over_the_socket() {
    let mut m = manager();
    let capable = vec![target("DP-1"), target("DP-2")];
    assert_eq!(
        plan_gamma(&capable, None, 6500, true, "1", true, "1"),
        Ok(vec![0, 1])
    );
    assert_eq!(
        plan_gamma(&capable, Some("DP-2"), 6500, true, "1", true, "1"),
        Ok(vec![1])
    );
    assert!(plan_gamma(&capable, Some("DP-9"), 6500, true, "1", true, "1").is_err());
    assert!(plan_gamma(&capable, None, 999, true, "1", true, "1").is_err());
    assert!(plan_gamma(&capable, None, 6500, false, "9", true, "1")
        .unwrap_err()
        .contains("9"));
    let done = |applied: bool| {
        vec![GammaDone {
            ramp: GammaRamp::identity(4),
            read: Some(GammaRamp::identity(4)),
            applied,
        }]
    };
    // What is refused changes nothing.
    let (refused, lost) =
        m.set_gamma_ipc(&capable, None, 999, true, "1", true, "1", Vec::new());
    assert_eq!(
        refused.unwrap_err(),
        "temperature 999K out of range (1000–25000)"
    );
    assert!(lost.is_empty() && m.gamma_control.controls.is_empty());
    let (refused, _) =
        m.set_gamma_ipc(&capable, Some("DP-9"), 6500, true, "1", true, "1", done(true));
    assert_eq!(refused.unwrap_err(), "no gamma-capable output named 'DP-9'");
    assert!(m.gamma_control.controls.is_empty());
    let (none, lost) =
        m.set_gamma_ipc(&capable, Some("DP-2"), 6500, true, "1", true, "1", done(false));
    assert_eq!(none.unwrap_err(), "the DRM driver rejected the gamma ramp");
    assert_eq!(lost, vec![None]);
    assert_eq!(m.gamma_control.controls[0].name, "DP-2");
    m.reset_gamma_ipc(None);
    let (set, _) =
        m.set_gamma_ipc(&capable, Some("DP-1"), 6500, true, "1", true, "1", done(true));
    assert_eq!(set, Ok(1));
    assert_eq!(m.gamma_control.controls[0].name, "DP-1");
    assert!(matches!(
        m.gamma_control.controls[0].owner,
        GammaOwner::Ipc
    ));
    assert_eq!(m.reset_gamma_ipc(Some("DP-2")).len(), 0);
    assert_eq!(m.reset_gamma_ipc(None).len(), 1);
    assert!(m.gamma_control.controls.is_empty());
    assert!(matches!(apply_gamma(None, true), ApplyStep::Refuse));
    assert!(matches!(apply_gamma(Some(false), true), ApplyStep::Later));
    assert!(matches!(apply_gamma(Some(true), true), ApplyStep::Push));
}

#[test]
fn client_numbers_are_kept_apart() {
    assert_eq!(ClientId(3), ClientId(3));
    assert_ne!(ClientId(3), ClientId(4));
}

#[test]
fn one_reset_gives_back_the_first_ramp() {
    let mut m = manager();
    let ramp = |v: u16| GammaRamp {
        red: vec![v, v],
        green: vec![v, v],
        blue: vec![v, v],
    };
    let set = |v: u16, read: Option<GammaRamp>| {
        vec![GammaSet {
            target: GammaTarget {
                name: "DP-1".to_string(),
                node: 1,
                crtc: 3,
                size: 2,
            },
            ramp: ramp(v),
            read,
            applied: true,
        }]
    };
    assert_eq!(m.take_outputs(set(20, Some(ramp(7)))).0, Ok(1));
    // What is read later is what the manager itself has set.
    assert_eq!(m.take_outputs(set(30, Some(ramp(20)))).0, Ok(1));
    assert_eq!(m.take_outputs(set(40, None)).0, Ok(1));
    let ended = m.reset_gamma_ipc(Some("DP-1"));
    assert_eq!(ended.len(), 1);
    assert_eq!(ended[0].original.red, vec![7, 7]);
    assert!(m.reset_gamma_ipc(Some("DP-1")).is_empty());
}

#[test]
fn ramps_are_read_in_either_order() {
    let bytes = vec![1, 0, 2, 0, 3, 0];
    let low = read_ramp_in(&bytes, 1, true).unwrap();
    assert_eq!((low.red, low.green, low.blue), (vec![1], vec![2], vec![3]));
    let high = read_ramp_in(&bytes, 1, false).unwrap();
    assert_eq!(
        (high.red, high.green, high.blue),
        (vec![256], vec![512], vec![768])
    );
    assert!(matches!(
        read_ramp_in(&bytes, 2, true),
        Err(GammaReadError::BadSize)
    ));
}

#[test]
fn lost_watcher_leaves_the_picker_of_another() {
    let mut m = manager();
    m.screen_capture_enabled = true;
    let mut s = Server::new();
    let a = s.accept_client();
    let b = s.accept_client();
    assert!(!s.clients[0].1.joined_capture(true, "DP-1".to_string()));
    m.ipc = Some(s);
    m.pending_picker = Some(b.0);
    let frames = m.push_capture("DP-1", Some((64, 32)), &None);
    assert!(!m.capture_written(a, 64, 32, frames[0].plan.seq, false));
    assert_eq!(m.pending_picker, Some(b.0));
    assert_eq!(m.ipc.as_ref().unwrap().clients.len(), 1);
    // A picker of the lost connection itself is over.
    m.pending_picker = Some(b.0);
    assert!(!m.capture_written(b, 64, 32, 0, false));
    assert_eq!(m.pending_picker, None);
}
