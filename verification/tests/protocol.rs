use stt_linux::activate::{
    probe_all, probe_evdev, probe_portal, probe_socket, InputDir, InputEntry, Portal,
};
use stt_linux::client::{reply_line, send_ok, simple, status, ClientError};
use stt_linux::config::ActivationBackend;
use stt_linux::ipc::{encode_line, DaemonState, Request, Response, StatusReport};
use stt_linux::paths::PathError;
use stt_linux::probe::Availability;
use stt_linux::wayland::{
    compositor_name, is_wayland, Global, Globals, RegistryError, INPUT_METHOD, LAYER_SHELL,
    VIRTUAL_KEYBOARD,
};

// ---------------------------------------------------------------- wire

#[test]
fn requests_round_trip() {
    for (req, name) in [
        (Request::Start, "start"),
        (Request::Stop, "stop"),
        (Request::Toggle, "toggle"),
        (Request::Cancel, "cancel"),
        (Request::Status, "status"),
        (Request::Reload, "reload"),
        (Request::Shutdown, "shutdown"),
    ] {
        let line = encode_line(&req.to_json());
        assert!(line.ends_with('\n'));
        let value: serde_json::Value = serde_json::from_str(line.trim()).unwrap();
        assert_eq!(value["cmd"], name);
        assert_eq!(value.as_object().unwrap().len(), 1);
    }
}

#[test]
fn request_wire_format_is_stable() {
    // The client is a separate binary that may be upgraded independently of
    // the daemon, so this shape is a compatibility surface.
    assert_eq!(Request::Toggle.to_json(), r#"{"cmd":"toggle"}"#);
}

fn report() -> StatusReport {
    StatusReport {
        state: DaemonState::Recording,
        engine: "parakeet-tdt-0.6b-v3".into(),
        injector: Some("wtype".into()),
        version: "0.1.0".into(),
        recording_ms: Some(2400),
    }
}

#[test]
fn responses_round_trip() {
    let line = encode_line(&Response::Status(report()).to_json());
    let value: serde_json::Value = serde_json::from_str(line.trim()).unwrap();
    assert_eq!(value["reply"], "status");
    assert_eq!(value["state"], "recording");
    assert_eq!(value["engine"], "parakeet-tdt-0.6b-v3");
    assert_eq!(value["injector"], "wtype");
    assert_eq!(value["version"], "0.1.0");
    assert_eq!(value["recording_ms"], 2400);

    let line = encode_line(
        &Response::Error {
            message: "no speech detected".into(),
        }
        .to_json(),
    );
    let value: serde_json::Value = serde_json::from_str(line.trim()).unwrap();
    assert_eq!(value["reply"], "error");
    assert_eq!(value["message"], "no speech detected");
}

#[test]
fn absent_fields_are_null() {
    let mut r = report();
    r.injector = None;
    r.recording_ms = None;
    r.state = DaemonState::Ready;
    assert_eq!(
        Response::Status(r).to_json(),
        r#"{"reply":"status","state":"ready","engine":"parakeet-tdt-0.6b-v3","injector":null,"version":"0.1.0","recording_ms":null}"#
    );
    assert_eq!(Response::Done.to_json(), r#"{"reply":"ok"}"#);
}

#[test]
fn encoded_lines_contain_no_interior_newlines() {
    // Framing depends on this: a newline inside a message would desync
    // the reader.
    let line = encode_line(
        &Response::Error {
            message: "multi\nline\nerror".into(),
        }
        .to_json(),
    );
    assert_eq!(line.matches('\n').count(), 1);
    let value: serde_json::Value = serde_json::from_str(line.trim()).unwrap();
    assert_eq!(value["message"], "multi\nline\nerror");
}

#[test]
fn states_have_names() {
    assert_eq!(DaemonState::Loading.as_str(), "loading");
    assert_eq!(DaemonState::Ready.as_str(), "ready");
    assert_eq!(DaemonState::Recording.as_str(), "recording");
    assert_eq!(DaemonState::Transcribing.as_str(), "transcribing");
    assert_eq!(DaemonState::Injecting.as_str(), "injecting");
}

// ---------------------------------------------------------------- client

#[test]
fn an_error_reply_becomes_an_error() {
    let refused = Response::Error {
        message: "not recording".into(),
    };
    assert_eq!(
        send_ok(Ok(refused.clone())).unwrap_err().message(),
        "not recording"
    );
    assert_eq!(send_ok(Ok(Response::Done)), Ok(Response::Done));
    assert_eq!(status(Ok(Response::Status(report()))), Ok(report()));
    assert_eq!(
        status(Ok(Response::Done)).unwrap_err().message(),
        "expected a status reply, got Ok"
    );
    assert_eq!(
        status(Ok(refused.clone())).unwrap_err().message(),
        "not recording"
    );
    assert_eq!(simple(Ok(Response::Done)), Ok(None));
    assert_eq!(
        simple(Ok(Response::Status(report()))),
        Ok(Some("recording"))
    );
    assert!(simple(Ok(refused)).is_err());
    assert_eq!(
        simple(Err(ClientError::Closed)).unwrap_err().message(),
        "daemon closed the connection without replying"
    );
}

#[test]
fn an_empty_read_is_a_hangup() {
    assert_eq!(reply_line(0, ""), Err(ClientError::Closed));
    assert_eq!(reply_line(3, " {}\n"), Ok("{}".to_string()));
}

#[test]
fn client_errors_name_their_cause() {
    let unreachable = ClientError::Unreachable {
        path: "/run/s".into(),
        error: "No such file".into(),
    };
    assert_eq!(
        unreachable.short_message(),
        "cannot reach the daemon at /run/s (is `sttd` running?)"
    );
    assert_eq!(
        unreachable.message(),
        "cannot reach the daemon at /run/s (is `sttd` running?): No such file"
    );
    assert_eq!(
        ClientError::Writing { error: "pipe".into() }.message(),
        "writing request: pipe"
    );
    assert_eq!(
        ClientError::Reading { error: "time".into() }.message(),
        "reading response: time"
    );
    assert_eq!(
        ClientError::Malformed {
            line: "x".into(),
            error: "bad".into()
        }
        .message(),
        "malformed response: x: bad"
    );
    assert_eq!(ClientError::Setup { error: "e".into() }.message(), "e");
    assert_eq!(
        ClientError::NoSocket(PathError::NoRuntimeDirectory).message(),
        "XDG_RUNTIME_DIR is unset; cannot place the control socket safely"
    );
}

// ---------------------------------------------------------------- wayland

#[test]
fn lookup_helpers() {
    let g = Globals {
        globals: vec![Global {
            interface: LAYER_SHELL.into(),
            version: 4,
        }],
    };
    assert!(g.has(LAYER_SHELL));
    assert!(!g.has(VIRTUAL_KEYBOARD));
    assert_eq!(g.version_of(LAYER_SHELL), Some(4));
    assert_eq!(g.version_of(INPUT_METHOD), None);
}

#[test]
fn probing_sorts_by_interface_and_keeps_ties_in_order() {
    let list: Vec<Global> = ["wl_seat", "wl_output", "wl_compositor", "wl_output", "wl_shm"]
        .iter()
        .enumerate()
        .map(|(i, name)| Global {
            interface: name.to_string(),
            version: i as u32,
        })
        .collect();
    let mut expected = list.clone();
    expected.sort_by(|a, b| a.interface.cmp(&b.interface));
    let g = Globals::probe(Ok(list)).unwrap();
    assert_eq!(g.globals, expected);
    assert_eq!(g.version_of("wl_output"), Some(1));
    assert!(Globals::default().globals.is_empty());
    assert_eq!(
        Globals::probe(Err(RegistryError::Connect("x".into())))
            .unwrap_err()
            .short_message(),
        "no Wayland connection (is WAYLAND_DISPLAY set?)"
    );
    assert_eq!(
        RegistryError::Roundtrip("x".into()).short_message(),
        "Wayland registry roundtrip failed"
    );
}

#[test]
fn the_compositor_is_named_by_the_first_variable_that_is_set() {
    assert_eq!(
        compositor_name(&vec![Some("Hyprland".into()), Some("x".into()), None]),
        "Hyprland"
    );
    assert_eq!(
        compositor_name(&vec![Some("".into()), None, Some("sway".into())]),
        "sway"
    );
    assert_eq!(compositor_name(&vec![None, None, None]), "unknown");
    assert!(is_wayland(Some("wayland-1")));
    assert!(!is_wayland(None));
}

#[test]
fn degraded_is_still_selectable() {
    assert!(Availability::Available.is_usable());
    assert!(Availability::Degraded.is_usable());
    assert!(!Availability::Unavailable.is_usable());
}

#[test]
fn availability_has_glyphs() {
    assert_eq!(Availability::Available.glyph(), "\x1b[32m✓\x1b[0m");
    assert_eq!(Availability::Degraded.glyph(), "\x1b[33m!\x1b[0m");
    assert_eq!(Availability::Unavailable.glyph(), "\x1b[31m✗\x1b[0m");
}

// ---------------------------------------------------------------- activation

fn entry(name: &str, readable: bool) -> InputEntry {
    InputEntry {
        name: Some(name.into()),
        readable,
    }
}

#[test]
fn probe_probe_all_covers_every_backend() {
    let probes = probe_all(&Portal::Unimplemented, &InputDir::Absent, Some("/run/user/1000"));
    assert_eq!(probes.len(), 3);
    let kinds: Vec<_> = probes.iter().map(|p| p.backend).collect();
    assert!(kinds.contains(&ActivationBackend::Portal));
    assert!(kinds.contains(&ActivationBackend::Evdev));
    assert!(kinds.contains(&ActivationBackend::Socket));
}

#[test]
fn probes_never_panic_and_always_explain_themselves() {
    for p in probe_all(&Portal::Unreachable("".into()), &InputDir::Unreadable, None) {
        assert!(!p.detail.is_empty(), "{:?} gave no explanation", p.backend);
    }
}

#[test]
fn socket_backend_is_always_usable() {
    // This is the guarantee the whole activation design rests on: whatever
    // the compositor does or does not implement, the socket works.
    let socket = probe_all(&Portal::Unimplemented, &InputDir::Absent, Some("/run/user/1000"))
        .into_iter()
        .find(|p| p.backend == ActivationBackend::Socket)
        .expect("socket backend must always be probed");
    assert!(socket.is_usable(), "{}", socket.detail);
    assert_eq!(
        socket.detail,
        "always available at /run/user/1000/stt-linux.sock"
    );
    // Without a runtime directory too.
    let homeless = probe_socket(None);
    assert_eq!(homeless.backend, ActivationBackend::Socket);
    assert_eq!(homeless.availability, Availability::Available);
    assert_eq!(
        homeless.detail,
        "always available, but XDG_RUNTIME_DIR is unset; cannot place the control socket safely"
    );
}

#[test]
fn portal_replies_are_told_apart() {
    let p = probe_portal(&Portal::Version(2));
    assert_eq!(p.availability, Availability::Available);
    assert_eq!(
        p.detail,
        "org.freedesktop.portal.GlobalShortcuts version 2"
    );
    assert!(!probe_portal(&Portal::Unimplemented).is_usable());
    assert_eq!(
        probe_portal(&Portal::Unreachable("no bus".into())).detail,
        "no session portal: no bus"
    );
}

#[test]
fn input_devices_are_counted() {
    let devices = |list: Vec<InputEntry>| probe_evdev(&InputDir::Entries(list));
    assert_eq!(
        devices(vec![entry("mice", true), entry("by-id", true)]).detail,
        "no /dev/input/event* devices found"
    );
    assert_eq!(
        devices(vec![entry("event0", false), entry("event1", false)]).detail,
        "2 input devices found, none readable (add yourself to the `input` group)"
    );
    let all = devices(vec![
        entry("event0", true),
        entry("mice", false),
        InputEntry {
            name: None,
            readable: true,
        },
    ]);
    assert_eq!(all.availability, Availability::Available);
    assert_eq!(all.detail, "all 1 input devices readable");
    let some = devices(vec![entry("event0", true), entry("event1", false)]);
    assert_eq!(some.availability, Availability::Degraded);
    assert!(some.detail.starts_with("only 1/2 input devices readable"));
    assert_eq!(
        probe_evdev(&InputDir::Absent).detail,
        "/dev/input does not exist"
    );
    assert_eq!(
        probe_evdev(&InputDir::Unreadable).detail,
        "/dev/input is not readable"
    );
}

#[test]
fn strings_are_escaped_character_by_character() {
    let said = |message: &str| {
        Response::Error {
            message: message.into(),
        }
        .to_json()
    };
    for (message, quoted) in [
        ("plain", r#""plain""#),
        ("", r#""""#),
        ("a\"b\\c/d", r#""a\"b\\c/d""#),
        ("\u{8}\t\n\u{c}\r", r#""\b\t\n\f\r""#),
        ("\u{0}\u{b}\u{1f} \u{7f}", "\"\\u0000\\u000b\\u001f \u{7f}\""),
        ("é—😀\u{2028}", "\"é—😀\u{2028}\""),
    ] {
        assert_eq!(
            said(message),
            format!("{{\"reply\":\"error\",\"message\":{quoted}}}")
        );
        let value: serde_json::Value = serde_json::from_str(&said(message)).unwrap();
        assert_eq!(value["message"], message);
    }
}

#[test]
fn different_responses_are_different_on_the_wire() {
    let status = |engine: &str, injector: Option<&str>, version: &str, recording_ms| {
        Response::Status(StatusReport {
            state: DaemonState::Ready,
            engine: engine.into(),
            injector: injector.map(String::from),
            version: version.into(),
            recording_ms,
        })
    };
    let all = [
        Response::Done,
        Response::Error { message: "".into() },
        Response::Error {
            message: "\"}".into(),
        },
        status("a", None, "1", None),
        status("a", Some("null"), "1", None),
        status("a\",\"injector\":null", None, "1", None),
        status("a", None, "1", Some(0)),
        status("a", None, "1", Some(10)),
        status("a", None, "10", Some(1)),
    ];
    for (i, a) in all.iter().enumerate() {
        assert_eq!(a.to_json().matches('\n').count(), 0);
        for b in &all[..i] {
            assert_ne!(a.to_json(), b.to_json());
        }
    }
}
