use stt_linux::activate::{InputDir, Portal};
use stt_linux::audio::{AudioError, DeviceInfo, InputDevices};
use stt_linux::client::ClientError;
use stt_linux::config::{ActivationBackend, Config, ConfigError, EngineBackend, InjectBackend};
use stt_linux::doctor::{report, Findings};
use stt_linux::inject::build;
use stt_linux::inject::probe::Tools;
use stt_linux::ipc::{DaemonState, StatusReport};
use stt_linux::wayland::{Global, Globals, RegistryError, VIRTUAL_KEYBOARD};

const OK: &str = "\x1b[32m✓\x1b[0m";
const BAD: &str = "\x1b[31m✗\x1b[0m";
const WARN: &str = "\x1b[33m!\x1b[0m";

fn device(name: &str, id: Option<&str>, format: Option<&str>) -> DeviceInfo {
    DeviceInfo {
        name: name.into(),
        id: id.map(String::from),
        default_config: format.map(String::from),
    }
}

fn healthy() -> Findings {
    Findings {
        version: "0.1.0".into(),
        session_type: Some("wayland".into()),
        on_wayland: true,
        compositor: "Hyprland".into(),
        registry: Ok(Globals {
            globals: vec![Global {
                interface: VIRTUAL_KEYBOARD.into(),
                version: 1,
            }],
        }),
        config_path: "/c/config.toml".into(),
        config_exists: false,
        config: Config::default(),
        config_error: None,
        models_dir: "/d/models".into(),
        socket: "/run/stt-linux.sock".into(),
        model_dir: "/d/models/parakeet-tdt-0.6b-v3".into(),
        model_files: Some(vec!["vocab.txt".into(), "encoder-model.int8.onnx".into()]),
        audio: Ok(InputDevices {
            default: Some(device("Default", Some("alsa:default"), Some("2ch 44100Hz I16"))),
            devices: vec![
                device("PipeWire", Some("alsa:pipewire"), Some("2ch 48000Hz F32")),
                device("Odd", None, None),
            ],
        }),
        tools: Tools {
            wtype: Some("/usr/bin/wtype".into()),
            wl_copy: Some("/usr/bin/wl-copy".into()),
            wl_paste: Some("/usr/bin/wl-paste".into()),
            uinput_exists: false,
            uinput_writable: false,
        },
        portal: Portal::Unimplemented,
        input: InputDir::Absent,
        runtime_dir: Some("/run".into()),
        daemon: Ok(StatusReport {
            state: DaemonState::Ready,
            engine: "parakeet-tdt-0.6b-v3".into(),
            injector: Some("wtype".into()),
            version: "0.1.0".into(),
            recording_ms: None,
        }),
    }
}

#[test]
fn a_healthy_session_is_reported_in_full() {
    let (text, usable) = report(&healthy());
    assert!(usable);
    let expected = format!(
        "stt-linux 0.1.0\n\n\
Session\n  {OK} type        wayland\n  {OK} compositor  Hyprland\n  {OK} registry    1 globals advertised\n\
\nWayland protocols\n\
  {OK} zwp_virtual_keyboard_manager_v1 v1 — wtype text injection\n\
  {WARN} zwlr_layer_shell_v1 absent — recording overlay unavailable\n\
  {WARN} zwp_input_method_manager_v2 absent — input-method injection unavailable\n\
  {WARN} zwlr_data_control_manager_v1 absent — clipboard access unavailable\n\
\nConfiguration\n\
  {OK} config      /c/config.toml (absent, using defaults)\n\
  {OK} models dir  /d/models\n\
  {OK} socket      /run/stt-linux.sock\n\
\nModel\n\
  {OK} Parakeet at /d/models/parakeet-tdt-0.6b-v3\n\
  {OK} files       encoder-model.int8.onnx, vocab.txt\n\
\nAudio input\n\
  {OK} will record from `alsa:pipewire` — 2ch 48000Hz F32\n      (preferring the PipeWire PCM; ALSA's `default` often captures silence here)\n\
  {OK} host default Default (alsa:default)\n\
  {OK} 2 other devices selectable:\n      {:<28} 2ch 48000Hz F32\n      {:<28} unknown format\n\
\nText injection (configured order: [Wtype, Clipboard])\n",
        "alsa:pipewire", "Odd"
    )
    .replace("\n\u{1b}", "\n  \u{1b}");
    let rest = format!(
        "  → {OK} Wtype: /usr/bin/wtype + virtual-keyboard protocol\n    {OK} Clipboard: wl-clipboard + a key-synthesis path\n    {BAD} Uinput: /dev/uinput does not exist (load the `uinput` module)\n    {BAD} InputMethod: compositor does not advertise zwp_input_method_manager_v2\n    {WARN} CopyOnly: copies to the clipboard; never types\n  would use: Wtype\n\nActivation\n  {BAD} Portal: portal is running but implements no GlobalShortcuts interface (xdg-desktop-portal-wlr does not; use the socket backend)\n  {BAD} Evdev: /dev/input does not exist\n  {OK} Socket: always available at /run/stt-linux.sock\n\n  Bind these in your compositor:\n    bind  = SUPER, D, exec, stt toggle      # toggle mode\n    bind  = SUPER, D, exec, stt start       # push-to-talk\n    bindr = SUPER, D, exec, stt stop\n\nDaemon\n  {OK} running — state ready, engine parakeet-tdt-0.6b-v3\n"
    );
    assert_eq!(text, expected + &rest);
}

#[test]
fn every_broken_part_makes_the_session_unusable() {
    let broken: Vec<fn(&mut Findings)> = vec![
        |f| f.registry = Err(RegistryError::Connect("refused".into())),
        |f| f.config_error = Some(ConfigError::NoBackends),
        |f| f.model_files = None,
        |f| f.model_files = Some(vec![]),
        |f| f.audio = Err(AudioError::Enumerating("busy".into())),
        |f| {
            f.audio = Ok(InputDevices {
                default: Some(device("Default", None, None)),
                devices: vec![],
            })
        },
        |f| f.config.inject.backends = vec![InjectBackend::InputMethod],
        |f| f.config.engine.backend = EngineBackend::Whisper,
        |f| f.config.audio.device = "no such device".into(),
        |f| {
            f.config.inject.backends = vec![InjectBackend::Clipboard];
            f.config.inject.paste_keys = "ctrl+".into();
        },
    ];
    for (i, spoil) in broken.iter().enumerate() {
        let mut f = healthy();
        spoil(&mut f);
        let (text, usable) = report(&f);
        assert!(!usable, "case {i} passed");
        assert!(text.contains(BAD), "case {i} shows nothing");
    }
}

#[test]
fn problems_are_spelled_out() {
    let mut f = healthy();
    f.on_wayland = false;
    f.session_type = None;
    f.registry = Err(RegistryError::Connect("refused".into()));
    f.config_exists = true;
    f.config_error = Some(ConfigError::NoBackends);
    f.model_files = None;
    f.audio = Err(AudioError::Enumerating("busy".into()));
    f.config.activation.backends = vec![ActivationBackend::Portal];
    f.daemon = Err(ClientError::Unreachable {
        path: "/run/stt-linux.sock".into(),
        error: "No such file".into(),
    });
    let (text, _) = report(&f);
    for line in [
        format!("  {BAD} type        unknown\n"),
        format!("  {BAD} registry    no Wayland connection (is WAYLAND_DISPLAY set?)\n\nConfiguration\n"),
        format!("  {BAD} config      inject.backends must list at least one backend\n"),
        format!("  {BAD} not found at /d/models/parakeet-tdt-0.6b-v3 — run `stt model download`\n"),
        format!("  {BAD} enumerating audio input devices: busy\n"),
        format!("    {BAD} Wtype: /usr/bin/wtype found, but no Wayland session\n"),
        format!("  {BAD} no configured injector is available — transcripts could only reach the clipboard\n"),
        format!("  {WARN} the socket backend is disabled in config; it is the only backend that works everywhere\n"),
        format!("  {WARN} not reachable: cannot reach the daemon at /run/stt-linux.sock (is `sttd` running?)\n"),
    ] {
        assert!(text.contains(&line), "{line:?} is missing in {text}");
    }
}

#[test]
fn a_backend_that_cannot_be_built_is_not_chosen() {
    let mut f = healthy();
    f.config.inject.backends = vec![InjectBackend::Uinput];
    f.tools.uinput_exists = true;
    f.tools.uinput_writable = true;
    let (text, usable) = report(&f);
    assert!(!usable);
    assert!(!text.contains("would use"));
    assert!(build(&f.config.inject, f.registry.as_ref().ok(), &f.tools).is_err());
    // It is passed over for the next one.
    f.config.inject.backends = vec![InjectBackend::Uinput, InjectBackend::Wtype];
    let (text, usable) = report(&f);
    assert!(usable);
    assert!(text.contains("  would use: Wtype\n"));
}

#[test]
fn the_configured_device_is_the_one_reported() {
    let mut f = healthy();
    for (selector, label) in [
        ("default", "`alsa:pipewire` — 2ch 48000Hz F32"),
        ("alsa:default", "`alsa:default` — 2ch 44100Hz I16"),
        ("Default", "`alsa:default` — 2ch 44100Hz I16"),
        ("Odd", "`Odd` — unknown format"),
        ("PipeWire", "`alsa:pipewire` — 2ch 48000Hz F32"),
    ] {
        f.config.audio.device = selector.into();
        let (text, usable) = report(&f);
        assert!(usable, "{selector}");
        assert!(text.contains(&format!("  {OK} will record from {label}\n")), "{text}");
    }
    f.config.audio.device = "other".into();
    assert!(report(&f).0.contains(&format!("  {BAD} no usable input device\n")));
}

#[test]
fn a_recognizer_that_is_not_built_in_is_named() {
    let mut f = healthy();
    f.config.engine.backend = EngineBackend::Whisper;
    assert!(report(&f).0.contains(&format!(
        "\nModel\n  {BAD} the whisper backend is not built in yet (milestone M8); set engine.backend = \"parakeet\"\n  {OK} Whisper at "
    )));
}

#[test]
fn a_config_file_that_exists_is_only_named() {
    let mut f = healthy();
    f.config_exists = true;
    assert!(report(&f)
        .0
        .contains(&format!("  {OK} config      /c/config.toml\n")));
}

#[test]
fn missing_devices_are_told_apart() {
    let mut f = healthy();
    f.audio = Ok(InputDevices {
        default: None,
        devices: vec![],
    });
    let (text, _) = report(&f);
    assert!(text.contains(&format!("  {BAD} no usable input device\n")));
    assert!(text.contains(&format!("  {BAD} no input devices enumerated\n")));
    f.audio = Ok(InputDevices {
        default: Some(device("Mic", None, Some("1ch 16000Hz I16"))),
        devices: vec![device("Other", Some("alsa:hw"), None)],
    });
    let (text, usable) = report(&f);
    assert!(usable);
    assert!(text.contains(&format!("  {OK} will record from `Mic` — 1ch 16000Hz I16\n")));
    assert!(text.contains(&format!("  {OK} host default Mic (no id)\n")));
    assert!(!text.contains("preferring the PipeWire PCM"));
}
