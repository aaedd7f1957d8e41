use stt_linux::config::{Config, ConfigError, InjectBackend, OverlayConfig};
use stt_linux::daemon::{
    bind_step, malformed, wanted_overlay, Action, BindStep, Daemon, PREVIEW_IDLE_MS, PREVIEW_MS,
};
use stt_linux::inject::focus::Focus;
use stt_linux::inject::probe::Tools;
use stt_linux::inject::steps::InjectStep;
use stt_linux::inject::{construct, AnyInjector, Injector};
use stt_linux::ipc::{DaemonState, Request, Response};
use stt_linux::overlay::{Cmd, OverlayAnchor};
use stt_linux::session::{
    DeliveryStep, FinishStep, Outcome, Session, SessionError, StartStep, StopReason, ToggleStep,
};

fn session() -> Session {
    Session::new(Config::default(), "fake".into(), false)
}

fn window(id: &str, app: &str) -> Focus {
    Focus::Window {
        id: id.into(),
        app: app.into(),
    }
}

#[test]
fn starts_in_ready() {
    let s = session();
    assert_eq!(s.state(), DaemonState::Ready);
    assert!(!s.is_recording());
    assert_eq!(s.recording_ms(0), None);
}

#[test]
fn stop_without_start_is_an_error() {
    let mut s = session();
    assert!(s.stop().is_err());
}

#[test]
fn cancel_without_recording_is_an_error() {
    let mut s = session();
    assert!(s.cancel().is_err());
}

#[test]
fn reload_flags_engine_changes_as_needing_restart() {
    let mut fresh = Config::default();
    fresh.engine.model_dir = "something-else".into();
    let mut s = session();
    let restart = s.reload(Ok(fresh)).unwrap();
    assert!(
        restart.iter().any(|r| r.contains("engine")),
        "changing the model must not silently do nothing: {restart:?}"
    );
}

#[test]
fn reload_of_an_unchanged_config_needs_no_restart() {
    let mut s = session();
    assert!(s.reload(Ok(Config::default())).unwrap().is_empty());
}

#[test]
fn reload_rejects_a_broken_config_and_keeps_the_old_one() {
    let mut s = session();
    assert!(s
        .reload(Err(ConfigError::Unparsable {
            path: "config.toml".into(),
            error: "invalid type".into(),
        }))
        .is_err());
    // The live config is untouched.
    assert_eq!(
        s.max_duration_secs(),
        Config::default().audio.max_duration_secs
    );
}

#[test]
fn reload_takes_what_needs_no_restart_at_once() {
    let mut fresh = Config::default();
    fresh.audio.max_duration_secs = 7;
    fresh.inject.backends = vec![InjectBackend::CopyOnly];
    let mut s = session();
    assert_eq!(
        s.reload(Ok(fresh)).unwrap(),
        vec!["inject.backends (restart sttd to apply)"]
    );
    assert_eq!(s.max_duration_secs(), 7);
}

#[test]
fn reload_reports_every_setting_that_the_injector_was_built_with() {
    let changes: Vec<(fn(&mut Config), &str)> = vec![
        (
            |c| c.inject.backends = vec![InjectBackend::CopyOnly],
            "inject.backends (restart sttd to apply)",
        ),
        (
            |c| c.inject.paste_keys = "ctrl+shift+v".into(),
            "inject.paste_keys (restart sttd to apply)",
        ),
        (
            |c| c.inject.restore_clipboard = false,
            "inject.restore_clipboard (restart sttd to apply)",
        ),
        (
            |c| c.inject.restore_delay_ms = 1,
            "inject.restore_delay_ms (restart sttd to apply)",
        ),
    ];
    let mut all = Config::default();
    for (change, entry) in &changes {
        let mut fresh = Config::default();
        change(&mut fresh);
        change(&mut all);
        assert_eq!(session().reload(Ok(fresh)).unwrap(), vec![*entry]);
    }
    assert_eq!(
        session().reload(Ok(all)).unwrap(),
        changes.iter().map(|(_, entry)| *entry).collect::<Vec<_>>()
    );
    let mut fresh = Config::default();
    fresh.inject.always_copy = false;
    assert!(session().reload(Ok(fresh)).unwrap().is_empty());
}

#[test]
fn a_second_start_is_a_no_op() {
    let mut s = session();
    assert_eq!(
        s.start(),
        Ok(StartStep::OpenMicrophone {
            device: "default".into()
        })
    );
    assert_eq!(s.recording_started(window("0x1", "foot"), 1000), None);
    assert_eq!(s.start(), Ok(StartStep::AlreadyRecording));
    assert_eq!(s.recording_ms(2500), Some(1500));
    assert_eq!(s.recording_ms(10), Some(0));
}

#[test]
fn a_dictation_runs_to_its_end() {
    let mut s = Session::new(Config::default(), "wtype".into(), true);
    assert_eq!(
        s.recording_started(window("0x1", "foot"), 1000),
        Some(Cmd::Show)
    );
    let stopped = s.stop().unwrap();
    assert_eq!(stopped.active.focus, window("0x1", "foot"));
    assert_eq!(stopped.overlay, Some(Cmd::Transcribing));
    assert_eq!(s.state(), DaemonState::Transcribing);
    assert_eq!(s.start(), Err(SessionError::Busy));

    assert_eq!(Session::after_recording(16_000, false), FinishStep::Transcribe);
    let text = Session::after_transcript("  hello world ").unwrap();
    assert_eq!(text, "hello world");

    let mut d = s
        .begin_delivery(stopped.dictation, &text, &stopped.active.focus, false)
        .unwrap();
    assert_eq!(s.state(), DaemonState::Injecting);
    assert_eq!(s.start(), Err(SessionError::Busy));
    assert_eq!(s.cancel(), Err(SessionError::NothingToCancel));
    assert_eq!(d.step(), &DeliveryStep::Copy);
    d.copied();
    assert_eq!(d.step(), &DeliveryStep::LookAtFocus);
    d.focus_is(&window("0x1", "foot"));
    assert_eq!(d.step(), &DeliveryStep::Inject);
    assert_eq!(d.text(), "hello world");
    d.injected();
    assert_eq!(
        d.step(),
        &DeliveryStep::Done(Outcome::Injected {
            text: "hello world".into(),
            via: "wtype".into()
        })
    );
    assert_eq!(s.finished(stopped.dictation), Some(Cmd::Hide));
    assert_eq!(s.state(), DaemonState::Ready);
}

#[test]
fn focus_that_moved_sends_text_to_the_clipboard() {
    let mut s = session();
    s.recording_started(window("0x1", "foot"), 0);
    let stopped = s.stop().unwrap();
    let mut d = s
        .begin_delivery(stopped.dictation, "secret", &stopped.active.focus, false)
        .unwrap();
    d.copied();
    d.focus_is(&window("0x2", "firefox"));
    assert_eq!(
        d.step(),
        &DeliveryStep::Done(Outcome::ClipboardOnly {
            text: "secret".into(),
            reason: "focus moved from foot to firefox during transcription".into()
        })
    );
}

#[test]
fn text_that_was_not_copied_first_is_copied_when_focus_moved() {
    // Neither a backend that would have copied it nor `always_copy = false`
    // may lose the words.
    for (always_copy, redundant) in [(true, true), (false, false), (false, true)] {
        let mut config = Config::default();
        config.inject.always_copy = always_copy;
        let mut s = Session::new(config, "copy-only".into(), false);
        s.recording_started(Focus::Nothing, 0);
        let stopped = s.stop().unwrap();
        let mut d = s
            .begin_delivery(stopped.dictation, "words", &stopped.active.focus, redundant)
            .unwrap();
        assert_eq!(d.step(), &DeliveryStep::LookAtFocus);
        d.focus_is(&window("0x2", "firefox"));
        assert_eq!(d.step(), &DeliveryStep::Copy);
        d.copied();
        assert_eq!(
            d.step(),
            &DeliveryStep::Done(Outcome::ClipboardOnly {
                text: "words".into(),
                reason: "focus moved from ? to firefox during transcription".into()
            })
        );
    }
}

#[test]
fn losing_focus_is_named_in_the_reason() {
    let mut s = session();
    s.recording_started(window("0x1", "foot"), 0);
    let stopped = s.stop().unwrap();
    let mut d = s
        .begin_delivery(stopped.dictation, "words", &stopped.active.focus, false)
        .unwrap();
    d.copied();
    d.focus_is(&Focus::Nothing);
    assert!(matches!(
        d.step(),
        DeliveryStep::Done(Outcome::ClipboardOnly { reason, .. })
            if reason == "focus moved from foot to nothing during transcription"
    ));
}

#[test]
fn a_cancelled_recording_is_dropped() {
    let mut s = Session::new(Config::default(), "wtype".into(), true);
    s.recording_started(Focus::Unknown, 0);
    assert_eq!(s.cancel(), Ok((Outcome::Cancelled, Some(Cmd::Hide))));
    assert_eq!(s.state(), DaemonState::Ready);
    assert_eq!(s.recording_ms(5), None);
    assert_eq!(s.stop(), Err(SessionError::NotRecording));
}

#[test]
fn a_cancelled_transcription_is_never_delivered() {
    let mut s = session();
    s.recording_started(Focus::Unknown, 0);
    let first = s.stop().unwrap();
    assert_eq!(s.cancel(), Ok((Outcome::Cancelled, None)));
    assert!(s
        .begin_delivery(first.dictation, "late", &Focus::Unknown, false)
        .is_none());

    // Another dictation is under way when the first one comes back.
    s.recording_started(Focus::Unknown, 100);
    let second = s.stop().unwrap();
    assert_ne!(first.dictation, second.dictation);
    assert!(s
        .begin_delivery(first.dictation, "late", &Focus::Unknown, false)
        .is_none());
    assert_eq!(s.finished(first.dictation), None);
    assert_eq!(s.state(), DaemonState::Transcribing);
    assert!(s
        .begin_delivery(second.dictation, "now", &Focus::Unknown, false)
        .is_some());
}

#[test]
fn silence_and_empty_transcripts_are_no_speech() {
    assert_eq!(Session::after_recording(0, false), FinishStep::NoSpeech);
    assert_eq!(Session::after_recording(16_000, true), FinishStep::NoSpeech);
    assert_eq!(Session::after_transcript(" \n\t "), None);
}

#[test]
fn previews_need_an_overlay_a_recording_and_enough_sound() {
    let mut s = Session::new(Config::default(), "wtype".into(), true);
    assert!(!s.preview(16_000, false, true));
    s.recording_started(Focus::Unknown, 0);
    assert!(s.preview(16_000, false, true));
    assert!(s.preview(12_800, false, true));
    assert!(!s.preview(12_799, false, true));
    assert!(s.preview(720_000, false, true));
    assert!(!s.preview(720_001, false, true));
    assert!(!s.preview(16_000, true, true));
    assert!(!s.preview(16_000, false, false));
    assert!(s.pump_overlay());
    assert_eq!(Session::preview_text(" hi "), Some(Cmd::Text("hi".into())));
    assert_eq!(Session::preview_text("  "), None);

    let mut bare = session();
    bare.recording_started(Focus::Unknown, 0);
    assert!(!bare.preview(16_000, false, true));
    assert!(!bare.pump_overlay());
}

#[test]
fn preview_bounds_are_the_documented_seconds() {
    let secs = |n: usize| n as f32 / 16_000f32;
    assert!((0.8f32..=45.0f32).contains(&secs(12_800)));
    assert!(!(0.8f32..=45.0f32).contains(&secs(12_799)));
    assert!((0.8f32..=45.0f32).contains(&secs(720_000)));
    assert!(!(0.8f32..=45.0f32).contains(&secs(720_001)));
}

#[test]
fn a_runaway_recording_is_stopped() {
    let mut config = Config::default();
    config.audio.max_duration_secs = 2;
    config.audio.silence_timeout_ms = 0;
    let mut s = Session::new(config, "wtype".into(), false);
    assert_eq!(s.stop_due(1_000_000), None);
    s.recording_started(Focus::Unknown, 1_000);
    assert_eq!(s.stop_due(2_999), None);
    assert_eq!(s.stop_due(3_000), Some(StopReason::TooLong));
}

#[test]
fn a_limit_of_zero_is_no_limit() {
    let mut config = Config::default();
    config.audio.max_duration_secs = 0;
    config.audio.silence_timeout_ms = 0;
    let mut s = Session::new(config, "wtype".into(), false);
    s.recording_started(Focus::Unknown, 0);
    s.heard(10);
    assert_eq!(s.stop_due(u64::MAX), None);
}

#[test]
fn trailing_silence_stops_a_recording_after_speech() {
    let mut s = session();
    s.heard(5);
    s.recording_started(Focus::Unknown, 0);
    assert_eq!(s.stop_due(10_000), None, "nothing was said yet");
    s.heard(10_000);
    assert_eq!(s.stop_due(11_499), None);
    assert_eq!(s.stop_due(11_500), Some(StopReason::Silence));
    s.heard(11_500);
    assert_eq!(s.stop_due(12_000), None);
}

#[test]
fn session_errors_speak() {
    assert_eq!(
        SessionError::Busy.message(),
        "busy: still finishing the previous dictation"
    );
    assert_eq!(SessionError::Loading.message(), "the model is still loading");
    assert_eq!(SessionError::NotRecording.message(), "not recording");
    assert_eq!(SessionError::NothingToCancel.message(), "nothing to cancel");
    assert_eq!(
        SessionError::Microphone("gone".into()).message(),
        "starting the microphone: gone"
    );
    assert_eq!(
        SessionError::Finishing("x".into()).message(),
        "finishing the recording: x"
    );
    assert_eq!(
        SessionError::Transcribing("x".into()).message(),
        "transcribing: x"
    );
    assert_eq!(
        SessionError::Injecting("x".into()).message(),
        "injecting text: x"
    );
}

#[test]
fn toggle_starts_and_stops() {
    let mut s = session();
    assert!(matches!(
        s.toggle(),
        Ok(ToggleStep::Start(StartStep::OpenMicrophone { .. }))
    ));
    s.recording_started(Focus::Unknown, 0);
    assert!(matches!(s.toggle(), Ok(ToggleStep::Stop(_))));
    assert_eq!(s.toggle(), Err(SessionError::Busy));
}

// ---------------------------------------------------------------- daemon

fn daemon() -> Daemon {
    Daemon::new(Session::new(Config::default(), "wtype".into(), true))
}

fn refusal(action: Action) -> String {
    match action {
        Action::Reply(Response::Error { message }) => message,
        other => panic!("not refused: {other:?}"),
    }
}

#[test]
fn requests_walk_through_a_dictation() {
    let mut d = daemon();
    assert_eq!(
        d.handle(Request::Start, "parakeet", "0.1.0", 0),
        Action::OpenMicrophone {
            device: "default".into()
        }
    );
    assert_eq!(
        d.opened(Ok(Focus::Unknown), 0),
        (Response::Done, Some(Cmd::Show))
    );
    assert_eq!(
        d.handle(Request::Start, "parakeet", "0.1.0", 1),
        Action::Reply(Response::Done)
    );
    match d.handle(Request::Status, "parakeet", "0.1.0", 2400) {
        Action::Reply(Response::Status(s)) => {
            assert_eq!(s.state, DaemonState::Recording);
            assert_eq!(s.engine, "parakeet");
            assert_eq!(s.injector.as_deref(), Some("wtype"));
            assert_eq!(s.version, "0.1.0");
            assert_eq!(s.recording_ms, Some(2400));
        }
        other => panic!("{other:?}"),
    }
    assert!(matches!(
        d.handle(Request::Toggle, "parakeet", "0.1.0", 3000),
        Action::Transcribe(_)
    ));
    assert_eq!(
        refusal(d.handle(Request::Toggle, "parakeet", "0.1.0", 3000)),
        "busy: still finishing the previous dictation"
    );
    assert_eq!(
        refusal(d.handle(Request::Stop, "parakeet", "0.1.0", 3000)),
        "not recording"
    );
    assert_eq!(
        d.handle(Request::Cancel, "parakeet", "0.1.0", 3000),
        Action::Drop {
            overlay: Some(Cmd::Hide)
        }
    );
    assert_eq!(
        refusal(d.handle(Request::Cancel, "parakeet", "0.1.0", 3000)),
        "nothing to cancel"
    );
    assert_eq!(
        d.handle(Request::Reload, "parakeet", "0.1.0", 3000),
        Action::ReadConfig
    );
    assert!(!d.is_shutting_down());
    assert_eq!(
        d.handle(Request::Shutdown, "parakeet", "0.1.0", 3000),
        Action::Reply(Response::Done)
    );
    assert!(d.is_shutting_down());
}

#[test]
fn a_microphone_that_fails_leaves_the_daemon_ready() {
    let mut d = daemon();
    let (response, overlay) = d.opened(Err("no default audio input device".into()), 0);
    assert_eq!(
        response,
        Response::Error {
            message: "starting the microphone: no default audio input device".into()
        }
    );
    assert_eq!(overlay, None);
    assert_eq!(d.session.state(), DaemonState::Ready);
}

#[test]
fn a_reload_reports_what_needs_a_restart() {
    let mut d = daemon();
    assert_eq!(d.reloaded(Ok(Config::default())), Response::Done);
    let mut fresh = Config::default();
    fresh.engine.language = "de".into();
    fresh.inject.backends = vec![];
    assert_eq!(
        d.reloaded(Ok(fresh)),
        Response::Error {
            message: "reloaded, but these need a restart: engine (restart sttd to apply), inject.backends (restart sttd to apply)".into()
        }
    );
    assert_eq!(
        d.reloaded(Err(ConfigError::NoBackends)),
        Response::Error {
            message: "inject.backends must list at least one backend".into()
        }
    );
}

#[test]
fn signals_ask_for_a_shutdown() {
    let mut d = daemon();
    d.request_shutdown();
    assert!(d.is_shutting_down());
}

#[test]
fn the_preview_thread_waits_longer_between_previews() {
    let mut d = daemon();
    assert_eq!(d.preview_pause_ms(), PREVIEW_IDLE_MS);
    d.opened(Ok(Focus::Unknown), 0);
    assert_eq!(d.preview_pause_ms(), PREVIEW_MS);
}

#[test]
fn malformed_requests_are_answered() {
    assert_eq!(
        malformed("expected value"),
        Response::Error {
            message: "malformed request: expected value".into()
        }
    );
}

#[test]
fn a_live_socket_is_not_stolen() {
    assert_eq!(bind_step("/run/s", false, false), BindStep::Bind);
    assert_eq!(bind_step("/run/s", true, false), BindStep::RemoveStale);
    assert_eq!(
        bind_step("/run/s", true, true),
        BindStep::Refuse {
            message: "another sttd is already listening on /run/s".into()
        }
    );
}

#[test]
fn the_overlay_is_built_when_it_is_wanted() {
    let mut config = OverlayConfig::default();
    assert_eq!(wanted_overlay(&config), Some(OverlayAnchor::Bottom));
    config.anchor = stt_linux::config::OverlayAnchor::Center;
    assert_eq!(wanted_overlay(&config), Some(OverlayAnchor::Center));
    config.enabled = false;
    assert_eq!(wanted_overlay(&config), None);
}

/// What a clipboard holds after an injector's steps, the first `n` of which
/// succeed.
fn clipboard_after(injector: &AnyInjector, text: &str, found: Option<&str>, n: usize) -> Option<String> {
    let mut clipboard = found.map(String::from);
    let mut saved = None;
    for step in injector.inject(text).into_iter().take(n) {
        match step {
            InjectStep::SaveClipboard { .. } => saved = clipboard.clone(),
            InjectStep::WriteClipboard { text, .. } | InjectStep::Copy { text } => {
                clipboard = Some(text)
            }
            InjectStep::RestoreClipboard { .. } => clipboard = saved.take().or(clipboard),
            InjectStep::Run { .. } => {}
        }
    }
    clipboard
}

#[test]
fn a_transcript_that_was_copied_stays_on_the_clipboard() {
    let tools = Tools {
        wtype: Some("/usr/bin/wtype".into()),
        wl_copy: Some("/usr/bin/wl-copy".into()),
        wl_paste: Some("/usr/bin/wl-paste".into()),
        uinput_exists: false,
        uinput_writable: false,
    };
    let config = Config::default().inject;
    for backend in [
        InjectBackend::Wtype,
        InjectBackend::Clipboard,
        InjectBackend::CopyOnly,
    ] {
        let injector = construct(backend, &config, &tools).ok().unwrap();
        let mut s = session();
        s.recording_started(window("0x1", "kitty"), 0);
        let stopped = s.stop().unwrap();
        let delivery = s
            .begin_delivery(
                stopped.dictation,
                "my words",
                &stopped.active.focus,
                injector.leaves_text_on_clipboard(),
            )
            .unwrap();
        let copied_first = *delivery.step() == DeliveryStep::Copy;
        assert_eq!(copied_first, backend != InjectBackend::CopyOnly);
        let found = if copied_first { "my words" } else { "before" };
        for n in 0..=4 {
            if copied_first || n > 0 {
                assert_eq!(
                    clipboard_after(&injector, "my words", Some(found), n).as_deref(),
                    Some("my words"),
                    "{backend:?} after {n} steps"
                );
            }
        }
    }
}
