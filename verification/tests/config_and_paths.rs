use stt_linux::config::{
    Config, ConfigError, EngineBackend, EngineConfig, ExecutionProvider, InjectBackend, Replacement,
    Source,
};
use stt_linux::paths::{
    config_dir, config_dir_of, config_file, config_file_in, data_dir, data_dir_of, is_absolute, join, models_dir,
    models_dir_in, socket_path, PathError,
};

fn replacement(from: Option<&str>, pattern: Option<&str>) -> Replacement {
    Replacement {
        from: from.map(String::from),
        pattern: pattern.map(String::from),
        to: "c".into(),
    }
}

fn with_replacements(replacements: Vec<Replacement>) -> Config {
    Config {
        replacements,
        ..Default::default()
    }
}

#[test]
fn defaults_are_valid() {
    Config::default().validate().unwrap();
}

#[test]
fn missing_file_yields_defaults() {
    let cfg = Config::load_from("nope.toml", Source::Absent).unwrap();
    assert_eq!(cfg, Config::default());
}

#[test]
fn replacement_needs_exactly_one_matcher() {
    let cfg = with_replacements(vec![replacement(Some("a"), Some("b"))]);
    assert!(cfg.validate().is_err());

    let cfg = with_replacements(vec![replacement(None, None)]);
    assert!(cfg.validate().is_err());
}

#[test]
fn bad_regex_is_caught_at_load() {
    let cfg = with_replacements(vec![Replacement {
        from: None,
        pattern: Some("(".into()),
        to: "x".into(),
    }]);
    let err = cfg.validate().unwrap_err();
    assert!(err.message().contains("invalid regex"), "{}", err.message());
    let compile = regex::Regex::new("(").unwrap_err().to_string();
    assert_eq!(
        err.message(),
        format!("replacement #0: invalid regex `(`: {compile}")
    );
}

#[test]
fn empty_inject_backends_rejected() {
    let mut cfg = Config::default();
    cfg.inject.backends = vec![];
    assert!(cfg.validate().is_err());
}

#[test]
fn absolute_model_dir_is_not_rebased() {
    let cfg = EngineConfig {
        model_dir: "/opt/models/tdt".into(),
        ..Default::default()
    };
    assert_eq!(cfg.resolved_model_dir().unwrap(), "/opt/models/tdt");
}

#[test]
fn relative_model_dirs_live_under_the_models_dir() {
    let cfg = EngineConfig::default();
    assert_eq!(
        cfg.model_dir_in("/home/me/models"),
        "/home/me/models/parakeet-tdt-0.6b-v3"
    );
    if let Ok(models) = models_dir() {
        assert_eq!(
            cfg.resolved_model_dir().unwrap(),
            format!("{models}/parakeet-tdt-0.6b-v3")
        );
    }
}

#[test]
fn defaults_are_the_documented_ones() {
    let c = Config::default();
    assert_eq!(c.engine.backend, EngineBackend::Parakeet);
    assert_eq!(c.engine.execution_provider, ExecutionProvider::Cpu);
    assert_eq!(c.engine.language, "auto");
    assert!(c.engine.prefer_int8);
    assert_eq!(c.audio.device, "default");
    assert_eq!(c.audio.silence_timeout_ms, 1500);
    assert_eq!(c.audio.max_duration_secs, 300);
    assert_eq!(
        c.inject.backends,
        vec![InjectBackend::Wtype, InjectBackend::Clipboard]
    );
    assert_eq!(c.inject.paste_keys, "ctrl+v");
    assert!(c.inject.restore_clipboard && c.inject.always_copy);
    assert_eq!(c.inject.restore_delay_ms, 300);
    assert!(c.overlay.enabled);
    assert!(c.replacements.is_empty());
    assert!(c.postproc.capitalize_first && c.postproc.trailing_space);
}

#[test]
fn the_first_fault_is_reported() {
    let cfg = with_replacements(vec![
        replacement(Some("a"), None),
        replacement(None, Some("[a-z]+")),
        replacement(None, None),
        replacement(Some("a"), Some("b")),
    ]);
    assert_eq!(
        cfg.validate(),
        Err(ConfigError::NoMatcher { index: 2 })
    );
    assert_eq!(
        cfg.validate().unwrap_err().message(),
        "replacement #2: needs either `from` or `pattern`"
    );
    let cfg = with_replacements(vec![replacement(Some("a"), Some("("))]);
    assert_eq!(
        cfg.validate().unwrap_err().message(),
        "replacement #0: set either `from` or `pattern`, not both"
    );
    let mut cfg = with_replacements(vec![replacement(None, None)]);
    cfg.inject.backends = vec![];
    assert_eq!(
        cfg.validate().unwrap_err().message(),
        "inject.backends must list at least one backend"
    );
}

#[test]
fn patterns_are_judged_by_the_compiler() {
    let cfg = with_replacements(vec![replacement(None, Some("(")), replacement(None, Some("x"))]);
    assert_eq!(cfg.validate_with(&vec![None, None]), Ok(()));
    assert_eq!(
        cfg.validate_with(&vec![None, Some("too big".into())]),
        Err(ConfigError::InvalidRegex {
            index: 1,
            pattern: "x".into(),
            error: "too big".into()
        })
    );
}

#[test]
fn files_that_cannot_be_used_are_named() {
    let err = Config::load_from("/c.toml", Source::Unreadable("denied".into())).unwrap_err();
    assert_eq!(err.message(), "reading config /c.toml: denied");
    let err = Config::load_from("/c.toml", Source::Unparsable("expected =".into())).unwrap_err();
    assert_eq!(err.message(), "parsing config /c.toml: expected =");
    let mut broken = Config::default();
    broken.inject.backends = vec![];
    assert_eq!(
        Config::load_from("/c.toml", Source::Parsed(broken)),
        Err(ConfigError::NoBackends)
    );
    let mut custom = Config::default();
    custom.audio.silence_timeout_ms = 800;
    assert_eq!(
        Config::load(Ok("/c.toml".into()), Source::Parsed(custom.clone())),
        Ok(custom)
    );
    assert_eq!(
        Config::load(Err(PathError::NoBaseDirectories), Source::Absent)
            .unwrap_err()
            .message(),
        "could not determine XDG base directories"
    );
}

#[test]
fn engine_configs_are_compared_field_by_field() {
    let base = EngineConfig::default();
    assert!(base.same_as(&EngineConfig::default()));
    let changes: Vec<EngineConfig> = vec![
        EngineConfig { backend: EngineBackend::Whisper, ..EngineConfig::default() },
        EngineConfig { model_dir: "x".into(), ..EngineConfig::default() },
        EngineConfig { execution_provider: ExecutionProvider::Cuda, ..EngineConfig::default() },
        EngineConfig { language: "en".into(), ..EngineConfig::default() },
        EngineConfig { prefer_int8: false, ..EngineConfig::default() },
    ];
    for changed in &changes {
        assert!(!changed.same_as(&base), "{changed:?}");
    }
}

// ---------------------------------------------------------------- paths

#[test]
fn joining_follows_the_standard_library() {
    for base in ["", "/", "/a", "/a/", "a", "a/b/"] {
        for path in ["", "x", "x/y", "/x", "./x", "../x"] {
            assert_eq!(
                join(base, path),
                std::path::Path::new(base).join(path).to_str().unwrap(),
                "{base:?} {path:?}"
            );
        }
    }
}

#[test]
fn absolute_paths_start_at_the_root() {
    for path in ["", "/", "/a", "a", "a/", "~"] {
        assert_eq!(is_absolute(path), std::path::Path::new(path).is_absolute());
    }
}

#[test]
fn the_socket_lives_in_the_runtime_dir() {
    assert_eq!(
        socket_path(Some("/run/user/1000")).unwrap(),
        "/run/user/1000/stt-linux.sock"
    );
    assert_eq!(
        socket_path(None).unwrap_err().message(),
        "XDG_RUNTIME_DIR is unset; cannot place the control socket safely"
    );
}

#[test]
fn xdg_directories_end_in_the_application_name() {
    match (config_dir(), data_dir()) {
        (Ok(config), Ok(data)) => {
            assert!(config.ends_with("/stt-linux"), "{config}");
            assert!(data.ends_with("/stt-linux"), "{data}");
            assert_eq!(config_file().unwrap(), format!("{config}/config.toml"));
            assert_eq!(models_dir().unwrap(), format!("{data}/models"));
            assert_ne!(config, data);
        }
        (Err(e), _) | (_, Err(e)) => assert_ne!(e, PathError::NoRuntimeDirectory),
    }
    assert_eq!(config_file_in("/c"), "/c/config.toml");
    assert_eq!(models_dir_in("/d"), "/d/models");
}

#[test]
fn directories_are_told_apart() {
    let dirs = || Some((Some("/c".to_string()), Some("/d".to_string())));
    assert_eq!(config_dir_of(dirs()).unwrap(), "/c");
    assert_eq!(data_dir_of(dirs()).unwrap(), "/d");
    let odd_data = || Some((Some("/c".to_string()), None));
    assert_eq!(config_dir_of(odd_data()).unwrap(), "/c");
    assert_eq!(data_dir_of(odd_data()), Err(PathError::NotUnicode));
    assert_eq!(config_dir_of(Some((None, None))), Err(PathError::NotUnicode));
    assert_eq!(
        PathError::NotUnicode.message(),
        "an XDG base directory is not valid Unicode"
    );
    assert_eq!(config_dir_of(None), Err(PathError::NoBaseDirectories));
    assert_eq!(data_dir_of(None), Err(PathError::NoBaseDirectories));
}
