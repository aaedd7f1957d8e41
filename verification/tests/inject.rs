use stt_linux::config::{InjectBackend, InjectConfig};
use stt_linux::inject::clipboard::{ClipboardInjector, ClipboardOptions};
use stt_linux::inject::focus::{
    current, json_string_field, parse_hyprland_activewindow, top_level_field, Focus,
};
use stt_linux::inject::keys::{Chord, ChordError, Part};
use stt_linux::inject::probe::{
    is_executable, probe_all, probe_clipboard, probe_copy_only, probe_input_method, probe_uinput,
    probe_wtype, search_path, which, FileMode, Tools,
};
use stt_linux::inject::steps::InjectStep;
use stt_linux::inject::wtype::{run_error, WtypeInjector};
use stt_linux::inject::{
    build, construct, copy_to_clipboard, AnyInjector, ConstructError, CopyOnlyInjector, Injector,
};
use stt_linux::probe::Availability;
use stt_linux::wayland::{Global, Globals, INPUT_METHOD, LAYER_SHELL, VIRTUAL_KEYBOARD};

// ---------------------------------------------------------------- keys

#[test]
fn parses_ctrl_v() {
    let c = Chord::parse("ctrl+v").unwrap();
    assert_eq!(c.modifiers, vec!["ctrl"]);
    assert_eq!(c.key, "v");
}

#[test]
fn parses_terminal_paste_chord() {
    let c = Chord::parse("ctrl+shift+v").unwrap();
    assert_eq!(c.modifiers, vec!["ctrl", "shift"]);
    assert_eq!(c.key, "v");
}

#[test]
fn maps_super_aliases_to_logo() {
    for spec in ["super+v", "win+v", "meta+v", "logo+v"] {
        assert_eq!(Chord::parse(spec).unwrap().modifiers, vec!["logo"]);
    }
}

#[test]
fn preserves_case_of_named_keys() {
    // libxkbcommon is case-sensitive: `Return` resolves, `return` does not.
    assert_eq!(Chord::parse("ctrl+Return").unwrap().key, "Return");
    assert_eq!(Chord::parse("V").unwrap().key, "v");
}

#[test]
fn builds_balanced_press_and_release_args() {
    let args = Chord::parse("ctrl+shift+v").unwrap().to_wtype_args();
    assert_eq!(
        args,
        vec!["-M", "ctrl", "-M", "shift", "-k", "v", "-m", "shift", "-m", "ctrl"]
    );
}

#[test]
fn every_pressed_modifier_is_released() {
    let args = Chord::parse("ctrl+alt+shift+x").unwrap().to_wtype_args();
    let pressed = args.iter().filter(|a| *a == "-M").count();
    let released = args.iter().filter(|a| *a == "-m").count();
    assert_eq!(pressed, released, "a stuck modifier would break the session");
    assert_eq!(pressed, 3);
}

#[test]
fn rejects_malformed_chords() {
    assert!(Chord::parse("ctrl+").is_err());
    assert!(Chord::parse("ctrl").is_err(), "modifiers alone are not a chord");
    assert!(Chord::parse("ctrl+a+b").is_err(), "two real keys");
    assert!(Chord::parse("").is_err());
}

#[test]
fn chord_errors_quote_the_chord() {
    assert_eq!(
        Chord::parse("ctrl+").unwrap_err().message(),
        "empty component in key chord `ctrl+`"
    );
    assert_eq!(
        Chord::parse("ctrl+a+b").unwrap_err().message(),
        "key chord `ctrl+a+b` names more than one non-modifier key"
    );
    assert_eq!(
        Chord::parse("ctrl+alt").unwrap_err().message(),
        "key chord `ctrl+alt` has no non-modifier key"
    );
}

#[test]
fn the_first_fault_in_a_chord_decides() {
    assert!(matches!(Chord::parse("a+b+"), Err(ChordError::TwoKeys { .. })));
    assert!(matches!(
        Chord::parse("a++b"),
        Err(ChordError::EmptyComponent { .. })
    ));
}

#[test]
fn chord_components_are_trimmed_and_lowercased() {
    let c = Chord::parse(" CTRL + Altgr +\tÄ ").unwrap();
    assert_eq!(c.modifiers, vec!["ctrl", "altgr"]);
    assert_eq!(c.key, "ä");
}

#[test]
fn chords_are_assembled_from_lowercase_forms() {
    let part = |text: &str, lower: &str| Part {
        text: text.to_string(),
        lower: lower.to_string(),
    };
    let c = Chord::parse_parts("x", &vec![part("CONTROL", "control"), part("F5", "f5")]).unwrap();
    assert_eq!(c.modifiers, vec!["ctrl"]);
    assert_eq!(c.key, "F5");
    // The lowercase form is taken on trust for a single letter.
    let c = Chord::parse_parts("x", &vec![part("Q", "z")]).unwrap();
    assert_eq!(c.key, "z");
}

// ---------------------------------------------------------------- focus

const SAMPLE: &str = r#"{
        "address": "0x55d1350af270",
        "mapped": true,
        "workspace": {"id": 2, "name": "2"},
        "class": "com.mitchellh.ghostty",
        "title": "stt-linux",
        "pid": 1629,
        "xwayland": false
    }"#;

fn window(id: &str, app: &str) -> Focus {
    Focus::Window {
        id: id.into(),
        app: app.into(),
    }
}

#[test]
fn parses_a_real_hyprctl_payload() {
    let focus = parse_hyprland_activewindow(SAMPLE);
    assert_eq!(
        focus,
        Focus::Window {
            id: "0x55d1350af270".into(),
            app: "com.mitchellh.ghostty".into(),
        }
    );
}

#[test]
fn empty_object_means_nothing_focused() {
    assert_eq!(parse_hyprland_activewindow("{}"), Focus::Nothing);
    assert_eq!(parse_hyprland_activewindow("   "), Focus::Nothing);
}

#[test]
fn garbage_is_unknown_not_a_panic() {
    assert_eq!(parse_hyprland_activewindow("not json"), Focus::Unknown);
    assert_eq!(
        parse_hyprland_activewindow("{\"other\": 1}"),
        Focus::Unknown
    );
}

#[test]
fn does_not_confuse_a_nested_key_with_the_real_one() {
    // "name" appears inside the workspace object; "class" must still be
    // read from the top level.
    let focus = parse_hyprland_activewindow(SAMPLE);
    assert_eq!(focus.app(), Some("com.mitchellh.ghostty"));
}

#[test]
fn handles_escaped_quotes_in_titles() {
    let json = r#"{"address": "0xabc", "title": "say \"hi\"", "class": "foot"}"#;
    assert_eq!(
        parse_hyprland_activewindow(json),
        Focus::Window {
            id: "0xabc".into(),
            app: "foot".into()
        }
    );
}

#[test]
fn same_window_is_a_safe_target() {
    let a = window("0x1", "foot");
    // Same address, different title-derived app: still the same window.
    let b = window("0x1", "foot");
    assert!(a.is_same_target(&b));
}

#[test]
fn a_different_window_is_not_a_safe_target() {
    let a = window("0x1", "foot");
    let b = window("0x2", "firefox");
    assert!(!a.is_same_target(&b), "this is the misdirected-paste guard");
}

#[test]
fn losing_focus_entirely_is_not_safe() {
    let a = window("0x1", "foot");
    assert!(!a.is_same_target(&Focus::Nothing));
}

#[test]
fn unknown_focus_never_blocks_injection() {
    // Compositors without IPC must still be able to dictate.
    let w = window("0x1", "foot");
    assert!(Focus::Unknown.is_same_target(&w));
    assert!(w.is_same_target(&Focus::Unknown));
    assert!(Focus::Unknown.is_same_target(&Focus::Unknown));
}

#[test]
fn a_chord_parses_however_it_is_spelled() {
    for spec in ["ctrl+shift+v", " Ctrl + SHIFT + v ", "control+shift+V", "\tCTRL+ shift+v"] {
        let c = Chord::parse(spec).unwrap();
        assert_eq!(c.modifiers, vec!["ctrl", "shift"], "{spec}");
        assert_eq!(c.key, "v", "{spec}");
    }
    assert_eq!(Chord::parse("ctrl+É").unwrap().key, "é");
    assert_eq!(Chord::parse("ctrl+[").unwrap().key, "[");
}

#[test]
fn the_canonical_spelling_parses_to_the_same_chord() {
    for spec in ["win+Alt+Return", "V", "control+altgr+meta+F5", "ctrl+shift+v", "ctrl+É", "alt+ÉÈ"] {
        let c = Chord::parse(spec).unwrap();
        let mut parts = c.modifiers.clone();
        parts.push(c.key.clone());
        assert_eq!(Chord::parse(&parts.join("+")).unwrap(), c, "{spec}");
    }
}

#[test]
fn an_empty_desktop_is_its_own_target() {
    assert!(Focus::Nothing.is_same_target(&Focus::Nothing));
    assert!(!Focus::Nothing.is_same_target(&window("0x1", "foot")));
    assert_eq!(Focus::Nothing.app(), None);
}

#[test]
fn string_fields_are_unescaped_and_must_be_closed() {
    let json = r#"{"a": "x\\y\"z", "b": 7, "c": "open"#;
    assert_eq!(json_string_field(json, "a"), Some("x\\y\"z".to_string()));
    assert_eq!(json_string_field(json, "b"), None);
    assert_eq!(json_string_field(json, "c"), None);
    assert_eq!(json_string_field(json, "d"), None);
    assert_eq!(json_string_field(r#"{"a""#, "a"), None);
    assert_eq!(json_string_field("{\"a\":\"x\\", "a"), None);
}

#[test]
fn nested_fields_do_not_count() {
    let json = r#"{"address": "0x1", "workspace": {"class": "inner"}, "class": "foot"}"#;
    assert_eq!(parse_hyprland_activewindow(json), window("0x1", "foot"));
    let json = r#"{"monitor": {"address": "0xbad"}, "tags": [{"class": "a"}], "class": "foot", "address": "0x2"}"#;
    assert_eq!(parse_hyprland_activewindow(json), window("0x2", "foot"));
    let only_nested = r#"{"address": "0x3", "workspace": {"class": "inner"}}"#;
    assert_eq!(parse_hyprland_activewindow(only_nested), window("0x3", ""));
    let no_address = r#"{"workspace": {"address": "0x4"}}"#;
    assert_eq!(parse_hyprland_activewindow(no_address), Focus::Unknown);
}

#[test]
fn text_that_is_no_object_is_read_flat() {
    assert_eq!(
        parse_hyprland_activewindow(r#""address":"0x1", "class": "foot""#),
        window("0x1", "foot")
    );
    assert_eq!(
        parse_hyprland_activewindow(r#" [{"class": "foot", "address": "0x2"}] "#),
        window("0x2", "foot")
    );
}

#[test]
fn a_value_is_not_taken_for_a_key() {
    let json = r#"{"title": "class", "other": "{\"class\": \"x\"", "class" : "foot"}"#;
    assert_eq!(top_level_field(json, "class"), Some("foot".to_string()));
    assert_eq!(top_level_field(json, "title"), Some("class".to_string()));
    assert_eq!(top_level_field(json, "foot"), None);
    assert_eq!(top_level_field(r#"{"a": 1, "b": "x"}"#, "a"), None);
    assert_eq!(top_level_field(r#"{"a": "open"#, "a"), None);
    assert_eq!(top_level_field("", "a"), None);
    assert_eq!(top_level_field(r#"}{"a": "x"}"#, "a"), Some("x".to_string()));
}

#[test]
fn a_window_without_an_address_is_no_window() {
    assert_eq!(
        parse_hyprland_activewindow(r#"{"address": "", "class": "foot"}"#),
        Focus::Nothing
    );
    assert_eq!(
        parse_hyprland_activewindow(r#"{"address": "0x1"}"#),
        window("0x1", "")
    );
}

#[test]
fn only_hyprland_tells_the_focus() {
    assert_eq!(current(false, Some(SAMPLE)), Focus::Unknown);
    assert_eq!(current(true, None), Focus::Unknown);
    assert_eq!(current(true, Some("{}")), Focus::Nothing);
    assert_eq!(
        current(true, Some(SAMPLE)).app(),
        Some("com.mitchellh.ghostty")
    );
}

// ---------------------------------------------------------------- probing

fn globals_with(interfaces: &[&str]) -> Globals {
    Globals {
        globals: interfaces
            .iter()
            .map(|i| Global {
                interface: (*i).into(),
                version: 1,
            })
            .collect(),
    }
}

fn all_tools() -> Tools {
    Tools {
        wtype: Some("/usr/bin/wtype".into()),
        wl_copy: Some("/usr/bin/wl-copy".into()),
        wl_paste: Some("/usr/bin/wl-paste".into()),
        uinput_exists: true,
        uinput_writable: true,
    }
}

fn no_tools() -> Tools {
    Tools {
        wtype: None,
        wl_copy: None,
        wl_paste: None,
        uinput_exists: false,
        uinput_writable: false,
    }
}

#[test]
fn which_finds_a_known_binary() {
    let program = Some(FileMode {
        is_file: true,
        mode: 0o755,
    });
    let places = search_path("sh", Some("/usr/local/bin:/usr/bin:/bin"));
    assert_eq!(places, vec!["/usr/local/bin/sh", "/usr/bin/sh", "/bin/sh"]);
    assert_eq!(
        which(&places, &vec![None, program, program]),
        Some("/usr/bin/sh".to_string())
    );
    assert!(which(&places, &vec![None, None, None]).is_none());
}

#[test]
fn an_unset_path_finds_nothing_and_an_empty_entry_is_here() {
    assert!(search_path("sh", None).is_empty());
    assert_eq!(search_path("sh", Some("")), vec!["sh"]);
    assert_eq!(search_path("sh", Some("/bin/::/x")), vec!["/bin/sh", "sh", "/x/sh"]);
    assert_eq!(search_path("/abs", Some("/bin")), vec!["/abs"]);
}

#[test]
fn only_files_with_an_execute_bit_are_executable() {
    let file = |mode: u32| Some(FileMode { is_file: true, mode });
    assert!(is_executable(file(0o100)));
    assert!(is_executable(file(0o010)));
    assert!(is_executable(file(0o001)));
    assert!(!is_executable(file(0o666)));
    assert!(!is_executable(Some(FileMode {
        is_file: false,
        mode: 0o755
    })));
    assert!(!is_executable(None));
}

#[test]
fn wtype_unavailable_without_the_protocol() {
    let g = globals_with(&[LAYER_SHELL]);
    let p = probe_wtype(Some(&g), &all_tools());
    assert!(!p.is_usable());
    assert!(p.detail.contains(VIRTUAL_KEYBOARD));
}

#[test]
fn input_method_requires_its_global() {
    assert!(!probe_input_method(None).is_usable());
    assert!(!probe_input_method(Some(&globals_with(&[]))).is_usable());
    // Present, but never a clean tick: it cannot reach every client.
    let p = probe_input_method(Some(&globals_with(&[INPUT_METHOD])));
    assert_eq!(p.availability, Availability::Degraded);
}

#[test]
fn probe_all_covers_every_backend() {
    let probes = probe_all(None, &all_tools());
    assert_eq!(probes.len(), 5, "every InjectBackend variant must be probed");
}

#[test]
fn nothing_claims_usability_without_wayland() {
    // Every backend here ultimately talks to the compositor. Only uinput
    // bypasses it, going straight to the kernel.
    for p in probe_all(None, &all_tools()) {
        if p.backend != InjectBackend::Uinput {
            assert!(
                !p.is_usable(),
                "{:?} claimed usability off-Wayland: {}",
                p.backend,
                p.detail
            );
        }
    }
}

#[test]
fn copy_only_is_available_whenever_wl_copy_is() {
    // This is the guarantee that a transcript is never lost: on any
    // Wayland session with wl-clipboard, there is always some backend.
    let globals = globals_with(&[]);
    let p = probe_copy_only(Some(&globals), &all_tools());
    assert!(p.is_usable(), "{}", p.detail);
    assert!(!probe_copy_only(Some(&globals), &no_tools()).is_usable());
}

#[test]
fn probes_say_why() {
    let g = globals_with(&[VIRTUAL_KEYBOARD]);
    assert_eq!(
        probe_wtype(Some(&g), &all_tools()).detail,
        "/usr/bin/wtype + virtual-keyboard protocol"
    );
    assert_eq!(
        probe_wtype(Some(&g), &no_tools()).detail,
        "`wtype` not found on $PATH"
    );
    assert_eq!(
        probe_clipboard(Some(&g), &all_tools()).availability,
        Availability::Available
    );
    let mut tools = all_tools();
    tools.wl_paste = None;
    assert_eq!(
        probe_clipboard(Some(&g), &tools).detail,
        "`wl-paste` not found on $PATH (install wl-clipboard)"
    );
    tools = all_tools();
    tools.wtype = None;
    tools.uinput_writable = false;
    assert_eq!(
        probe_clipboard(Some(&g), &tools).availability,
        Availability::Degraded
    );
    assert_eq!(
        probe_uinput(&tools).detail,
        "/dev/uinput exists but is not writable (add yourself to the `input` group or install a udev rule)"
    );
    assert_eq!(probe_uinput(&all_tools()).detail, "/dev/uinput is writable");
    assert!(!probe_uinput(&no_tools()).is_usable());
}

#[test]
fn backends_have_lowercase_names() {
    let names: Vec<_> = probe_all(None, &no_tools())
        .iter()
        .map(|p| p.backend_name())
        .collect();
    assert_eq!(
        names,
        vec!["wtype", "clipboard", "uinput", "input-method", "copy-only"]
    );
}

// ---------------------------------------------------------------- wtype

#[test]
fn text_is_separated_from_options() {
    assert_eq!(
        WtypeInjector::type_args("hello"),
        vec!["--".to_string(), "hello".to_string()]
    );
}

#[test]
fn leading_hyphen_is_not_treated_as_a_flag() {
    // "-M ctrl" as dictated text must be typed, not executed as options.
    let args = WtypeInjector::type_args("-M ctrl");
    assert_eq!(args[0], "--");
    assert_eq!(args[1], "-M ctrl");
}

#[test]
fn text_is_passed_as_one_argument() {
    // Passing via argv (not a shell string) means no quoting or escaping
    // can go wrong, whatever the transcript contains.
    let nasty = "a\"b'c$d`e;f\ng\\h";
    let args = WtypeInjector::type_args(nasty);
    assert_eq!(args.len(), 2);
    assert_eq!(args[1], nasty);
}

#[test]
fn unicode_survives_argument_construction() {
    let text = "café → naïve 日本語 🎤";
    assert_eq!(WtypeInjector::type_args(text)[1], text);
}

#[test]
fn typing_runs_wtype_once_and_nothing_for_no_text() {
    let i = WtypeInjector::new("/usr/bin/wtype".into());
    assert_eq!(i.name(), "wtype");
    assert!(!i.leaves_text_on_clipboard());
    assert!(i.inject("").is_empty());
    assert_eq!(
        i.inject("hi"),
        vec![InjectStep::Run {
            program: "/usr/bin/wtype".into(),
            args: vec!["--".into(), "hi".into()],
        }]
    );
}

#[test]
fn a_failed_program_is_reported_with_its_output() {
    assert_eq!(run_error("wtype", true, "exit status: 0", "noise"), None);
    assert_eq!(
        run_error("wtype", false, "exit status: 1", " no such protocol\n"),
        Some("wtype failed (exit status: 1): no such protocol".to_string())
    );
}

// ---------------------------------------------------------------- clipboard

fn options(keys: &str) -> ClipboardOptions {
    ClipboardOptions {
        paste_keys: keys.into(),
        restore: true,
        restore_delay_ms: 300,
    }
}

#[test]
fn builds_with_a_valid_chord() {
    let injector = ClipboardInjector::new(
        "/usr/bin/wl-copy".into(),
        "/usr/bin/wl-paste".into(),
        Some("/usr/bin/wtype".into()),
        &options("ctrl+shift+v"),
    )
    .ok()
    .unwrap();
    let chord = &injector.paste.as_ref().unwrap().chord;
    assert_eq!(chord.modifiers, vec!["ctrl", "shift"]);
}

#[test]
fn rejects_a_bad_chord_at_construction() {
    // Better to fail at daemon startup than on the first dictation.
    let result = ClipboardInjector::new(
        "/usr/bin/wl-copy".into(),
        "/usr/bin/wl-paste".into(),
        Some("/usr/bin/wtype".into()),
        &options("ctrl+"),
    );
    assert!(result.is_err());
}

#[test]
fn works_without_a_key_synthesizer() {
    // Degraded but useful: text still reaches the clipboard.
    let injector = ClipboardInjector::new(
        "/usr/bin/wl-copy".into(),
        "/usr/bin/wl-paste".into(),
        None,
        &options("ctrl+v"),
    )
    .ok()
    .unwrap();
    assert!(injector.paste.is_none());
}

#[test]
fn pasting_saves_writes_presses_and_restores() {
    let injector = ClipboardInjector::new(
        "wl-copy".into(),
        "wl-paste".into(),
        Some("wtype".into()),
        &options("ctrl+v"),
    )
    .ok()
    .unwrap();
    assert_eq!(injector.name(), "clipboard");
    assert_eq!(
        injector.inject("hello"),
        vec![
            InjectStep::SaveClipboard {
                program: "wl-paste".into()
            },
            InjectStep::WriteClipboard {
                program: "wl-copy".into(),
                text: "hello".into()
            },
            InjectStep::Run {
                program: "wtype".into(),
                args: vec![
                    "-M".into(),
                    "ctrl".into(),
                    "-k".into(),
                    "v".into(),
                    "-m".into(),
                    "ctrl".into()
                ],
            },
            InjectStep::RestoreClipboard {
                program: "wl-copy".into(),
                delay_ms: 300
            },
        ]
    );
    assert!(injector.inject("").is_empty());
}

#[test]
fn without_a_paste_key_the_only_copy_is_kept() {
    let injector = ClipboardInjector::new(
        "wl-copy".into(),
        "wl-paste".into(),
        None,
        &options("ctrl+v"),
    )
    .ok()
    .unwrap();
    let steps = injector.inject("hello");
    assert_eq!(
        steps.last(),
        Some(&InjectStep::WriteClipboard {
            program: "wl-copy".into(),
            text: "hello".into()
        })
    );
    assert_eq!(steps.len(), 2);
}

#[test]
fn copy_only_copies_and_leaves_the_text_there() {
    let i = CopyOnlyInjector;
    assert_eq!(i.name(), "copy-only");
    assert!(i.leaves_text_on_clipboard());
    assert_eq!(
        i.inject("hello"),
        vec![InjectStep::Copy {
            text: "hello".into()
        }]
    );
    assert!(i.inject("").is_empty());
}

#[test]
fn the_safety_copy_needs_a_program() {
    assert_eq!(
        copy_to_clipboard(Some("/bin/wl-copy"), "hi"),
        Ok(InjectStep::WriteClipboard {
            program: "/bin/wl-copy".into(),
            text: "hi".into()
        })
    );
    assert_eq!(
        copy_to_clipboard(None, "hi").unwrap_err().message(),
        "wl-copy not found on $PATH"
    );
}

// ---------------------------------------------------------------- building

fn config_with(backends: Vec<InjectBackend>) -> InjectConfig {
    InjectConfig {
        backends,
        ..Default::default()
    }
}

#[test]
fn build_reports_everything_it_tried_when_nothing_works() {
    let config = InjectConfig {
        // Neither is implemented, so this always fails.
        backends: vec![InjectBackend::Uinput, InjectBackend::InputMethod],
        ..Default::default()
    };
    let Err(err) = build(&config, None, &all_tools()) else {
        panic!("expected no usable injector");
    };
    let msg = err.message();
    assert!(msg.contains("Uinput"), "{msg}");
    assert!(msg.contains("InputMethod"), "{msg}");
    assert!(msg.contains("stt doctor"), "should point at the diagnostic");
    assert_eq!(
        msg,
        "no usable text injector (tried: Uinput, InputMethod); run `stt doctor` for details"
    );
}

#[test]
fn an_empty_backend_list_is_an_error_not_a_panic() {
    let config = InjectConfig {
        backends: vec![],
        ..Default::default()
    };
    assert!(build(&config, None, &all_tools()).is_err());
}

#[test]
fn the_first_usable_backend_wins() {
    let g = globals_with(&[VIRTUAL_KEYBOARD]);
    let config = config_with(vec![
        InjectBackend::Uinput,
        InjectBackend::Wtype,
        InjectBackend::Clipboard,
    ]);
    let (injector, probe) = build(&config, Some(&g), &all_tools()).ok().unwrap();
    // uinput probes usable but cannot be built.
    assert_eq!(injector.name(), "wtype");
    assert_eq!(probe.backend, InjectBackend::Wtype);
    assert_eq!(probe.detail, "/usr/bin/wtype + virtual-keyboard protocol");
}

#[test]
fn a_backend_that_will_not_build_falls_through() {
    let g = globals_with(&[]);
    let mut config = config_with(vec![InjectBackend::Clipboard, InjectBackend::CopyOnly]);
    config.paste_keys = "ctrl".into();
    let (injector, probe) = build(&config, Some(&g), &all_tools()).ok().unwrap();
    assert_eq!(injector.name(), "copy-only");
    assert!(injector.leaves_text_on_clipboard());
    assert_eq!(probe.availability, Availability::Degraded);
}

#[test]
fn construction_errors_say_what_is_missing() {
    let config = InjectConfig::default();
    let reason = |b: InjectBackend, t: &Tools| match construct(b, &config, t) {
        Ok(_) => "built".to_string(),
        Err(e) => e.message(),
    };
    assert_eq!(
        reason(InjectBackend::Wtype, &no_tools()),
        "wtype vanished after probing"
    );
    assert_eq!(
        reason(InjectBackend::Clipboard, &no_tools()),
        "wl-copy vanished after probing"
    );
    let mut tools = all_tools();
    tools.wl_paste = None;
    assert_eq!(
        reason(InjectBackend::Clipboard, &tools),
        "wl-paste vanished after probing"
    );
    assert_eq!(
        reason(InjectBackend::Uinput, &all_tools()),
        "the uinput backend is not implemented yet"
    );
    assert_eq!(
        reason(InjectBackend::InputMethod, &all_tools()),
        "the input-method backend is not implemented yet"
    );
    assert_eq!(reason(InjectBackend::CopyOnly, &no_tools()), "built");
    let mut bad = InjectConfig::default();
    bad.paste_keys = "ctrl+".into();
    assert!(matches!(
        construct(InjectBackend::Clipboard, &bad, &all_tools()),
        Err(ConstructError::Chord(ChordError::EmptyComponent { .. }))
    ));
    assert!(matches!(
        construct(InjectBackend::Clipboard, &config, &all_tools()),
        Ok(AnyInjector::Clipboard(_))
    ));
}
