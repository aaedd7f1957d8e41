//! User configuration.
//!
//! Every field has a default, so a missing or partial file is not an error:
//! a fresh install must work with no config at all.

use vstd::prelude::*;
use crate::paths;
use crate::paths::PathError;
use crate::text;

verus! {

/// Everything the user can set.
#[derive(Debug, Clone, PartialEq)]
pub struct Config {
    pub engine: EngineConfig,
    pub audio: AudioConfig,
    pub activation: ActivationConfig,
    pub inject: InjectConfig,
    pub overlay: OverlayConfig,
    /// Post-transcription text substitutions, applied in order.
    pub replacements: Vec<Replacement>,
    pub postproc: PostProcConfig,
}

impl Config {
    /// Whether every field has its default.
    pub open spec fn is_default(self) -> bool {
        &&& self.engine.is_default()
        &&& self.audio.is_default()
        &&& self.activation.is_default()
        &&& self.inject.is_default()
        &&& self.overlay.is_default()
        &&& self.replacements@.len() == 0
        &&& self.postproc.is_default()
    }
}

impl Default for Config {
    fn default() -> (r: Self)
        ensures
            r.is_default(),
    {
        Config {
            engine: EngineConfig::default(),
            audio: AudioConfig::default(),
            activation: ActivationConfig::default(),
            inject: InjectConfig::default(),
            overlay: OverlayConfig::default(),
            replacements: Vec::new(),
            postproc: PostProcConfig::default(),
        }
    }
}

// ---------------------------------------------------------------- engine

/// Which recognizer to run.
#[derive(Debug, Clone, Copy, PartialEq, Eq, Structural)]
pub enum EngineBackend {
    Parakeet,
    Whisper,
}

/// ONNX Runtime execution provider. An unsupported choice degrades to the CPU
/// rather than crashing.
#[derive(Debug, Clone, Copy, PartialEq, Eq, Structural)]
pub enum ExecutionProvider {
    Cpu,
    OpenVino,
    WebGpu,
    Cuda,
}

/// Which model to load, and how.
#[derive(Debug, Clone, PartialEq)]
pub struct EngineConfig {
    pub backend: EngineBackend,
    /// Directory name under the models dir, or an absolute path.
    pub model_dir: String,
    pub execution_provider: ExecutionProvider,
    /// BCP-47 code, or `"auto"` to let the model decide.
    pub language: String,
    /// Prefer int8 model weights when present. Roughly 4x smaller and faster
    /// on CPU.
    pub prefer_int8: bool,
}

impl Default for EngineConfig {
    fn default() -> (r: Self)
        ensures
            r.is_default(),
    {
        EngineConfig {
            backend: EngineBackend::Parakeet,
            model_dir: "parakeet-tdt-0.6b-v3".to_owned(),
            execution_provider: ExecutionProvider::Cpu,
            language: "auto".to_owned(),
            prefer_int8: true,
        }
    }
}

impl EngineConfig {
    /// Whether every field has its default.
    pub open spec fn is_default(self) -> bool {
        &&& self.backend is Parakeet
        &&& self.model_dir@ == "parakeet-tdt-0.6b-v3"@
        &&& self.execution_provider is Cpu
        &&& self.language@ == "auto"@
        &&& self.prefer_int8
    }

    /// Whether two engine configurations agree in every field.
    pub open spec fn agrees(self, other: EngineConfig) -> bool {
        &&& self.backend == other.backend
        &&& self.model_dir@ == other.model_dir@
        &&& self.execution_provider == other.execution_provider
        &&& self.language@ == other.language@
        &&& self.prefer_int8 == other.prefer_int8
    }

    /// Whether two engine configurations agree in every field.
    pub fn same_as(&self, other: &EngineConfig) -> (r: bool)
        ensures
            r == self.agrees(*other),
    {
        self.backend == other.backend && text::same(
            self.model_dir.as_str(),
            other.model_dir.as_str(),
        ) && self.execution_provider == other.execution_provider && text::same(
            self.language.as_str(),
            other.language.as_str(),
        ) && self.prefer_int8 == other.prefer_int8
    }

    /// The model directory seen from `models_dir`, unless it is already
    /// absolute.
    pub fn model_dir_in(&self, models_dir: &str) -> (r: String)
        ensures
            r@ == paths::joined(models_dir@, self.model_dir@),
    {
        paths::join(models_dir, self.model_dir.as_str())
    }

    /// Resolve [`Self::model_dir`] against the models directory unless it is
    /// already absolute.
    pub fn resolved_model_dir(&self) -> (r: Result<String, PathError>)
        ensures
            match r {
                Ok(dir) => if paths::absolute(self.model_dir@) {
                    dir@ == self.model_dir@
                } else {
                    paths::has_suffix(
                        dir@,
                        "/"@ + paths::APP_DIR@ + "/"@ + "models"@ + "/"@ + self.model_dir@,
                    )
                },
                Err(e) => {
                    &&& !paths::absolute(self.model_dir@)
                    &&& e is NoBaseDirectories || e is NotUnicode
                },
            },
    {
        if paths::is_absolute(self.model_dir.as_str()) {
            return Ok(self.model_dir.clone());
        }
        match paths::models_dir() {
            Ok(dir) => {
                proof {
                    reveal_strlit("/");
                    reveal_strlit("models");
                    paths::lemma_suffix_joins(
                        dir@,
                        "/"@ + paths::APP_DIR@ + "/"@ + "models"@,
                        self.model_dir@,
                    );
                }
                Ok(self.model_dir_in(dir.as_str()))
            },
            Err(e) => Err(e),
        }
    }
}

// ---------------------------------------------------------------- audio

/// How to record.
#[derive(Debug, Clone, PartialEq)]
pub struct AudioConfig {
    /// Input device name, or `"default"`.
    pub device: String,
    /// Stop recording after this much trailing silence. `0` disables
    /// VAD auto-stop entirely.
    pub silence_timeout_ms: u32,
    /// Hard cap on a single recording, as a runaway guard.
    pub max_duration_secs: u32,
}

impl AudioConfig {
    /// Whether every field has its default.
    pub open spec fn is_default(self) -> bool {
        &&& self.device@ == "default"@
        &&& self.silence_timeout_ms == 1500
        &&& self.max_duration_secs == 300
    }
}

impl Default for AudioConfig {
    fn default() -> (r: Self)
        ensures
            r.is_default(),
    {
        AudioConfig {
            device: "default".to_owned(),
            silence_timeout_ms: 1500,
            max_duration_secs: 300,
        }
    }
}

// ---------------------------------------------------------------- activation

/// What a key press means.
#[derive(Debug, Clone, Copy, PartialEq, Eq, Structural)]
pub enum ActivationMode {
    Toggle,
    PushToTalk,
}

/// Where key presses come from.
#[derive(Debug, Clone, Copy, PartialEq, Eq, Hash, Structural)]
pub enum ActivationBackend {
    /// XDG desktop portal GlobalShortcuts.
    Portal,
    /// Raw `/dev/input/event*` reads. Needs `input` group membership.
    Evdev,
    /// The control socket. Always available; cannot be disabled.
    Socket,
}

/// How dictation is started and stopped.
#[derive(Debug, Clone, PartialEq)]
pub struct ActivationConfig {
    pub mode: ActivationMode,
    pub backends: Vec<ActivationBackend>,
}

impl ActivationConfig {
    /// Whether every field has its default.
    pub open spec fn is_default(self) -> bool {
        &&& self.mode is Toggle
        &&& self.backends@ == seq![ActivationBackend::Portal, ActivationBackend::Socket]
    }
}

impl Default for ActivationConfig {
    fn default() -> (r: Self)
        ensures
            r.is_default(),
    {
        ActivationConfig {
            mode: ActivationMode::Toggle,
            backends: vec![ActivationBackend::Portal, ActivationBackend::Socket],
        }
    }
}

// ---------------------------------------------------------------- inject

/// Ways to put text into the focused application.
#[derive(Debug, Clone, Copy, PartialEq, Eq, Hash, Structural)]
pub enum InjectBackend {
    /// `wtype`, via the virtual-keyboard protocol.
    Wtype,
    /// Clipboard write plus a synthesized paste chord.
    Clipboard,
    /// `/dev/uinput` writes, compositor-independent.
    Uinput,
    /// `zwp_input_method_v2` commit_string. Only reaches text-input-v3 clients.
    InputMethod,
    /// Put the transcript on the clipboard and stop there; never synthesize
    /// keystrokes.
    CopyOnly,
}

impl InjectBackend {
    /// The name of the variant.
    pub open spec fn variant(self) -> Seq<char> {
        match self {
            InjectBackend::Wtype => "Wtype"@,
            InjectBackend::Clipboard => "Clipboard"@,
            InjectBackend::Uinput => "Uinput"@,
            InjectBackend::InputMethod => "InputMethod"@,
            InjectBackend::CopyOnly => "CopyOnly"@,
        }
    }

    /// The name of the variant.
    pub fn variant_name(self) -> (r: &'static str)
        ensures
            r@ == self.variant(),
    {
        match self {
            InjectBackend::Wtype => "Wtype",
            InjectBackend::Clipboard => "Clipboard",
            InjectBackend::Uinput => "Uinput",
            InjectBackend::InputMethod => "InputMethod",
            InjectBackend::CopyOnly => "CopyOnly",
        }
    }
}

/// How to deliver text.
#[derive(Debug, Clone, PartialEq)]
pub struct InjectConfig {
    /// Tried in order; the first that probes successfully wins.
    pub backends: Vec<InjectBackend>,
    /// Paste chord for the clipboard backend. Terminals usually need
    /// `ctrl+shift+v`.
    pub paste_keys: String,
    /// Restore the previous clipboard contents after pasting.
    pub restore_clipboard: bool,
    /// How long to wait before restoring, so the target app has actually read
    /// the selection. Too short and the paste lands empty.
    pub restore_delay_ms: u32,
    /// Always copy the transcript to the clipboard, whichever backend is used,
    /// so a misdirected injection never loses text.
    pub always_copy: bool,
}

impl InjectConfig {
    /// Whether every field has its default.
    pub open spec fn is_default(self) -> bool {
        &&& self.backends@ == seq![InjectBackend::Wtype, InjectBackend::Clipboard]
        &&& self.paste_keys@ == "ctrl+v"@
        &&& self.restore_clipboard
        &&& self.restore_delay_ms == 300
        &&& self.always_copy
    }

    /// Whether an injector that was built with one configuration is as good for
    /// the other: what it was built with is the same.
    pub open spec fn builds_alike(self, other: InjectConfig) -> bool {
        &&& self.backends@ == other.backends@
        &&& self.paste_keys@ == other.paste_keys@
        &&& self.restore_clipboard == other.restore_clipboard
        &&& self.restore_delay_ms == other.restore_delay_ms
    }

    /// Whether two configurations name the same backends in the same order.
    pub fn same_backends(&self, other: &InjectConfig) -> (r: bool)
        ensures
            r == (self.backends@ == other.backends@),
    {
        if self.backends.len() != other.backends.len() {
            return false;
        }
        let mut i: usize = 0;
        while i < self.backends.len()
            invariant
                i <= self.backends@.len(),
                self.backends@.len() == other.backends@.len(),
                forall|j: int| 0 <= j < i ==> self.backends@[j] == other.backends@[j],
            decreases self.backends@.len() - i,
        {
            if self.backends[i] != other.backends[i] {
                return false;
            }
            i += 1;
        }
        assert(self.backends@ =~= other.backends@);
        true
    }
}

impl Default for InjectConfig {
    fn default() -> (r: Self)
        ensures
            r.is_default(),
    {
        InjectConfig {
            backends: vec![InjectBackend::Wtype, InjectBackend::Clipboard],
            paste_keys: "ctrl+v".to_owned(),
            restore_clipboard: true,
            restore_delay_ms: 300,
            always_copy: true,
        }
    }
}

// ---------------------------------------------------------------- overlay

/// Where the overlay sits on the screen.
#[derive(Debug, Clone, Copy, PartialEq, Eq, Structural)]
pub enum OverlayAnchor {
    Top,
    Bottom,
    Center,
}

/// Whether and where to show the recording overlay.
#[derive(Debug, Clone, PartialEq)]
pub struct OverlayConfig {
    pub enabled: bool,
    pub anchor: OverlayAnchor,
}

impl OverlayConfig {
    /// Whether every field has its default.
    pub open spec fn is_default(self) -> bool {
        self.enabled && self.anchor is Bottom
    }
}

impl Default for OverlayConfig {
    fn default() -> (r: Self)
        ensures
            r.is_default(),
    {
        OverlayConfig { enabled: true, anchor: OverlayAnchor::Bottom }
    }
}

// ---------------------------------------------------------------- post-processing

/// A single text substitution.
///
/// Exactly one of `from` (literal) or `pattern` (regex) must be set; this is
/// validated in [`Config::validate`] so that a bad config produces a readable
/// error.
#[derive(Debug, Clone, PartialEq)]
pub struct Replacement {
    pub from: Option<String>,
    pub pattern: Option<String>,
    pub to: String,
}

/// Cosmetic changes to a transcript.
#[derive(Debug, Clone, PartialEq)]
pub struct PostProcConfig {
    /// Uppercase the first alphabetic character of the transcript.
    pub capitalize_first: bool,
    /// Append a space, so consecutive dictations do not run together.
    pub trailing_space: bool,
}

impl PostProcConfig {
    /// Whether every field has its default.
    pub open spec fn is_default(self) -> bool {
        self.capitalize_first && self.trailing_space
    }
}

impl Default for PostProcConfig {
    fn default() -> (r: Self)
        ensures
            r.is_default(),
    {
        PostProcConfig { capitalize_first: true, trailing_space: true }
    }
}

// ---------------------------------------------------------------- validation

/// What the regex compiler says against a pattern; none if it compiles.
pub uninterp spec fn regex_error(pattern: Seq<char>) -> Option<Seq<char>>;

/// `regex::Regex::new`: names the text of the error that a pattern gives, and
/// claims only that it depends on the pattern alone.
#[verifier::external_body]
fn check_regex(pattern: &str) -> (r: Option<String>)
    ensures
        text::opt_view(r) == regex_error(pattern@),
{
    regex::Regex::new(pattern).err().map(|e| e.to_string())
}

/// Why a configuration was rejected.
#[derive(Debug, Clone, PartialEq, Eq)]
pub enum ConfigError {
    /// There is no place for the file.
    NoPath(PathError),
    /// No injection backend is listed.
    NoBackends,
    /// A replacement has both `from` and `pattern`.
    BothMatchers { index: usize },
    /// A replacement has neither `from` nor `pattern`.
    NoMatcher { index: usize },
    /// A replacement's pattern does not compile.
    InvalidRegex { index: usize, pattern: String, error: String },
    /// The file could not be read.
    Unreadable { path: String, error: String },
    /// The file is not a configuration.
    Unparsable { path: String, error: String },
}

impl ConfigError {
    /// The error in words.
    pub open spec fn text(self) -> Seq<char> {
        match self {
            ConfigError::NoPath(e) => e.text(),
            ConfigError::NoBackends => "inject.backends must list at least one backend"@,
            ConfigError::BothMatchers { index } => "replacement #"@ + text::decimal(index as nat)
                + ": set either `from` or `pattern`, not both"@,
            ConfigError::NoMatcher { index } => "replacement #"@ + text::decimal(index as nat)
                + ": needs either `from` or `pattern`"@,
            ConfigError::InvalidRegex { index, pattern, error } => "replacement #"@ + text::decimal(
                index as nat,
            ) + ": invalid regex `"@ + pattern@ + "`: "@ + error@,
            ConfigError::Unreadable { path, error } => "reading config "@ + path@ + ": "@ + error@,
            ConfigError::Unparsable { path, error } => "parsing config "@ + path@ + ": "@ + error@,
        }
    }

    /// The error in words.
    pub fn message(&self) -> (r: String)
        ensures
            r@ == self.text(),
    {
        match self {
            ConfigError::NoPath(e) => e.message(),
            ConfigError::NoBackends => "inject.backends must list at least one backend".to_owned(),
            ConfigError::BothMatchers { index } => {
                let mut m = "replacement #".to_owned();
                m.append(text::to_decimal(*index as u64).as_str());
                m.append(": set either `from` or `pattern`, not both");
                m
            },
            ConfigError::NoMatcher { index } => {
                let mut m = "replacement #".to_owned();
                m.append(text::to_decimal(*index as u64).as_str());
                m.append(": needs either `from` or `pattern`");
                m
            },
            ConfigError::InvalidRegex { index, pattern, error } => {
                let mut m = "replacement #".to_owned();
                m.append(text::to_decimal(*index as u64).as_str());
                m.append(": invalid regex `");
                m.append(pattern.as_str());
                m.append("`: ");
                m.append(error.as_str());
                m
            },
            ConfigError::Unreadable { path, error } => {
                let mut m = "reading config ".to_owned();
                m.append(path.as_str());
                m.append(": ");
                m.append(error.as_str());
                m
            },
            ConfigError::Unparsable { path, error } => {
                let mut m = "parsing config ".to_owned();
                m.append(path.as_str());
                m.append(": ");
                m.append(error.as_str());
                m
            },
        }
    }
}

/// A fault in one replacement.
pub ghost enum Fault {
    BothMatchers,
    NoMatcher,
    InvalidRegex { pattern: Seq<char>, error: Seq<char> },
}

/// The fault in a replacement, if it has one, given what the regex compiler
/// says against its pattern.
pub open spec fn fault(r: Replacement, complaint: Option<Seq<char>>) -> Option<Fault> {
    match (r.from, r.pattern) {
        (Some(_), Some(_)) => Some(Fault::BothMatchers),
        (None, None) => Some(Fault::NoMatcher),
        (None, Some(p)) => match complaint {
            Some(error) => Some(Fault::InvalidRegex { pattern: p@, error }),
            None => None,
        },
        (Some(_), None) => None,
    }
}

/// The first fault at or after `from`, with its position.
pub open spec fn first_fault(
    replacements: Seq<Replacement>,
    complaints: Seq<Option<Seq<char>>>,
    from: int,
) -> Option<(int, Fault)>
    decreases replacements.len() - from,
{
    if from < 0 || from >= replacements.len() {
        None
    } else {
        match fault(replacements[from], complaints[from]) {
            Some(f) => Some((from, f)),
            None => first_fault(replacements, complaints, from + 1),
        }
    }
}

/// Whether `r` is the verdict on a configuration: the first thing that is
/// wrong with it, or success when nothing is.
pub open spec fn is_verdict(
    r: Result<(), ConfigError>,
    config: Config,
    complaints: Seq<Option<Seq<char>>>,
) -> bool {
    if config.inject.backends@.len() == 0 {
        r == Err::<(), ConfigError>(ConfigError::NoBackends)
    } else {
        match first_fault(config.replacements@, complaints, 0) {
            None => r is Ok,
            Some((i, Fault::BothMatchers)) => r matches Err(ConfigError::BothMatchers { index })
                && index == i,
            Some((i, Fault::NoMatcher)) => r matches Err(ConfigError::NoMatcher { index }) && index
                == i,
            Some((i, Fault::InvalidRegex { pattern, error })) =>
                r matches Err(ConfigError::InvalidRegex { index, pattern: p, error: e }) && index
                    == i && p@ == pattern && e@ == error,
        }
    }
}

/// What the regex compiler says against each replacement's pattern.
pub open spec fn complaints(replacements: Seq<Replacement>) -> Seq<Option<Seq<char>>> {
    replacements.map_values(
        |r: Replacement|
            match r.pattern {
                Some(p) => regex_error(p@),
                None => None,
            },
    )
}

/// The texts of some optional errors.
pub open spec fn error_views(errors: Seq<Option<String>>) -> Seq<Option<Seq<char>>> {
    errors.map_values(|e: Option<String>| text::opt_view(e))
}

/// A configuration file as far as it could be read.
pub enum Source {
    /// There is no such file.
    Absent,
    /// It could not be read; carries the error.
    Unreadable(String),
    /// It does not parse; carries the error.
    Unparsable(String),
    /// It holds this configuration, with defaults for what it leaves out.
    Parsed(Config),
}

/// Whether `r` is what a file at `path` gives.
pub open spec fn is_loaded(r: Result<Config, ConfigError>, path: Seq<char>, source: Source) -> bool {
    match source {
        Source::Absent => r matches Ok(c) && c.is_default(),
        Source::Unreadable(e) => r matches Err(ConfigError::Unreadable { path: p, error }) && p@
            == path && error == e,
        Source::Unparsable(e) => r matches Err(ConfigError::Unparsable { path: p, error }) && p@
            == path && error == e,
        Source::Parsed(config) => match r {
            Ok(c) => c == config && is_verdict(Ok(()), config, complaints(config.replacements@)),
            Err(e) => is_verdict(Err(e), config, complaints(config.replacements@)),
        },
    }
}

impl Config {
    /// Checks what the type system does not.
    pub fn validate(&self) -> (r: Result<(), ConfigError>)
        ensures
            is_verdict(r, *self, complaints(self.replacements@)),
    {
        let mut errors: Vec<Option<String>> = Vec::new();
        let mut i: usize = 0;
        while i < self.replacements.len()
            invariant
                i <= self.replacements@.len(),
                error_views(errors@) =~= complaints(self.replacements@).take(i as int),
            decreases self.replacements@.len() - i,
        {
            let error = match &self.replacements[i].pattern {
                Some(p) => check_regex(p.as_str()),
                None => None,
            };
            let ghost before = errors@;
            errors.push(error);
            assert(error_views(errors@) =~= error_views(before).push(text::opt_view(error)));
            i += 1;
        }
        assert(error_views(errors@) =~= complaints(self.replacements@));
        assert(error_views(errors@).len() == errors@.len());
        self.validate_with(&errors)
    }

    /// Checks what the type system does not, given what the regex compiler
    /// said against each replacement's pattern.
    pub fn validate_with(&self, errors: &Vec<Option<String>>) -> (r: Result<(), ConfigError>)
        requires
            errors@.len() == self.replacements@.len(),
        ensures
            is_verdict(r, *self, error_views(errors@)),
    {
        if self.inject.backends.len() == 0 {
            return Err(ConfigError::NoBackends);
        }
        let ghost texts = error_views(errors@);
        let mut i: usize = 0;
        while i < self.replacements.len()
            invariant
                i <= self.replacements@.len(),
                errors@.len() == self.replacements@.len(),
                texts == error_views(errors@),
                first_fault(self.replacements@, texts, 0) == first_fault(
                    self.replacements@,
                    texts,
                    i as int,
                ),
                self.inject.backends@.len() > 0,
            decreases self.replacements@.len() - i,
        {
            let r = &self.replacements[i];
            assert(texts[i as int] == text::opt_view(errors@[i as int]));
            match (&r.from, &r.pattern) {
                (Some(_), Some(_)) => {
                    return Err(ConfigError::BothMatchers { index: i });
                },
                (None, None) => {
                    return Err(ConfigError::NoMatcher { index: i });
                },
                (None, Some(p)) => {
                    if let Some(error) = &errors[i] {
                        return Err(
                            ConfigError::InvalidRegex {
                                index: i,
                                pattern: p.clone(),
                                error: error.clone(),
                            },
                        );
                    }
                },
                (Some(_), None) => {},
            }
            i += 1;
        }
        Ok(())
    }

    /// Load from the default location, or return defaults if the file is absent.
    ///
    /// `file` is where [`paths::config_file`] says it is, and `source` what was
    /// found there.
    pub fn load(file: Result<String, PathError>, source: Source) -> (r: Result<Config, ConfigError>)
        ensures
            match file {
                Ok(path) => is_loaded(r, path@, source),
                Err(e) => r == Err::<Config, ConfigError>(ConfigError::NoPath(e)),
            },
    {
        match file {
            Ok(path) => Self::load_from(path.as_str(), source),
            Err(e) => Err(ConfigError::NoPath(e)),
        }
    }

    /// The configuration that a file gives: defaults if it is absent, and an
    /// error if it cannot be read, does not parse or is not valid.
    pub fn load_from(path: &str, source: Source) -> (r: Result<Config, ConfigError>)
        ensures
            is_loaded(r, path@, source),
    {
        match source {
            Source::Absent => Ok(Config::default()),
            Source::Unreadable(error) => Err(
                ConfigError::Unreadable { path: path.to_owned(), error },
            ),
            Source::Unparsable(error) => Err(
                ConfigError::Unparsable { path: path.to_owned(), error },
            ),
            Source::Parsed(config) => match config.validate() {
                Ok(()) => Ok(config),
                Err(e) => Err(e),
            },
        }
    }
}

/// The default configuration is valid, whatever the regex compiler says.
pub proof fn law_defaults_are_valid(config: Config, errors: Seq<Option<Seq<char>>>)
    requires
        config.is_default(),
    ensures
        is_verdict(Ok(()), config, errors),
{
}

/// A configuration is valid exactly when it lists a backend and every
/// replacement has exactly one matcher, which compiles if it is a pattern.
pub proof fn law_valid_configs(config: Config, errors: Seq<Option<Seq<char>>>)
    requires
        errors.len() == config.replacements@.len(),
    ensures
        is_verdict(Ok(()), config, errors) <==> {
            &&& config.inject.backends@.len() > 0
            &&& forall|i: int|
                0 <= i < config.replacements@.len() ==> {
                    let r = #[trigger] config.replacements@[i];
                    &&& (r.from is Some) != (r.pattern is Some)
                    &&& r.pattern is Some ==> errors[i] is None
                }
        },
{
    lemma_first_fault(config.replacements@, errors, 0);
}

proof fn lemma_first_fault(
    replacements: Seq<Replacement>,
    errors: Seq<Option<Seq<char>>>,
    from: int,
)
    requires
        0 <= from,
    ensures
        match first_fault(replacements, errors, from) {
            Some((i, f)) => from <= i < replacements.len() && fault(replacements[i], errors[i])
                == Some(f),
            None => forall|i: int|
                from <= i < replacements.len() ==> fault(
                    #[trigger] replacements[i],
                    errors[i],
                ) is None,
        },
    decreases replacements.len() - from,
{
    if from < replacements.len() && fault(replacements[from], errors[from]) is None {
        lemma_first_fault(replacements, errors, from + 1);
    }
}

/// What holds without a configuration file.
pub proof fn law_defaults(config: Config)
    requires
        config.is_default(),
    ensures
        config.engine.backend is Parakeet && config.engine.execution_provider is Cpu,
        config.engine.prefer_int8 && config.engine.language@ == "auto"@,
        config.engine.model_dir@ == "parakeet-tdt-0.6b-v3"@,
        config.audio.device@ == "default"@,
        config.audio.silence_timeout_ms == 1500 && config.audio.max_duration_secs == 300,
        config.activation.mode is Toggle,
        config.activation.backends@ == seq![ActivationBackend::Portal, ActivationBackend::Socket],
        config.inject.backends@ == seq![InjectBackend::Wtype, InjectBackend::Clipboard],
        config.inject.paste_keys@ == "ctrl+v"@,
        config.inject.restore_clipboard && config.inject.restore_delay_ms == 300,
        config.inject.always_copy,
        config.overlay.enabled && config.overlay.anchor is Bottom,
        config.replacements@.len() == 0,
        config.postproc.capitalize_first && config.postproc.trailing_space,
{
}

/// The first faulty replacement is the one that is reported, under its place in
/// the list, and with what is wrong with it.
pub proof fn law_first_faulty_replacement_is_reported(
    replacements: Seq<Replacement>,
    complaints: Seq<Option<Seq<char>>>,
    from: int,
)
    requires
        0 <= from,
        complaints.len() == replacements.len(),
    ensures
        first_fault(replacements, complaints, from) matches Some((i, f)) ==> {
            &&& from <= i < replacements.len()
            &&& f is BothMatchers <==> replacements[i].from is Some && replacements[i].pattern is Some
            &&& f is NoMatcher <==> replacements[i].from is None && replacements[i].pattern is None
            &&& (f matches Fault::InvalidRegex { pattern, error } ==> replacements[i].from is None
                && replacements[i].pattern is Some && replacements[i].pattern->0@ == pattern
                && complaints[i] == Some(error))
            &&& forall|j: int|
                from <= j < i ==> {
                    let r = #[trigger] replacements[j];
                    &&& (r.from is Some) != (r.pattern is Some)
                    &&& r.pattern is Some ==> complaints[j] is None
                }
        },
    decreases replacements.len() - from,
{
    if from < replacements.len() {
        law_first_faulty_replacement_is_reported(replacements, complaints, from + 1);
    }
}

/// A configuration without a backend is refused for that, whatever else is
/// wrong with it; and a verdict on the same configuration never goes both ways.
pub proof fn law_missing_backends_come_first(
    r: Result<(), ConfigError>,
    config: Config,
    complaints: Seq<Option<Seq<char>>>,
)
    requires
        is_verdict(r, config, complaints),
    ensures
        (r matches Err(e) && e is NoBackends) <==> config.inject.backends@.len() == 0,
        r is Ok <==> is_verdict(Ok(()), config, complaints),
{
}

/// Engine settings agree, and injectors are built alike, only if nothing that
/// they are made from differs.
pub proof fn law_every_setting_counts(
    a: EngineConfig,
    b: EngineConfig,
    i: InjectConfig,
    j: InjectConfig,
)
    ensures
        a.agrees(b) <==> a.backend == b.backend && a.model_dir@ == b.model_dir@
            && a.execution_provider == b.execution_provider && a.language@ == b.language@
            && a.prefer_int8 == b.prefer_int8,
        i.builds_alike(j) <==> i.backends@ == j.backends@ && i.paste_keys@ == j.paste_keys@
            && i.restore_clipboard == j.restore_clipboard && i.restore_delay_ms
            == j.restore_delay_ms,
{
}

/// Without a file the defaults hold; a file that cannot be read or parsed is
/// reported with its path; and one that can is taken as it is if it is valid,
/// and refused otherwise.
pub proof fn law_loading(r: Result<Config, ConfigError>, path: Seq<char>, source: Source)
    requires
        is_loaded(r, path, source),
    ensures
        source is Absent ==> (r matches Ok(c) && c.is_default()),
        source is Unreadable ==> (r matches Err(ConfigError::Unreadable { path: p, error }) && p@
            == path),
        source is Unparsable ==> (r matches Err(ConfigError::Unparsable { path: p, error }) && p@
            == path),
        source matches Source::Parsed(config) ==> (r is Ok <==> is_verdict(
            Ok(()),
            config,
            complaints(config.replacements@),
        )),
        source matches Source::Parsed(config) ==> (r matches Ok(c) ==> c == config),
{
}

/// A pattern is complained about exactly if it does not compile; what has no
/// pattern is not.
pub proof fn law_complaints_are_about_patterns(replacements: Seq<Replacement>, i: int)
    requires
        0 <= i < replacements.len(),
    ensures
        complaints(replacements).len() == replacements.len(),
        replacements[i].pattern is None ==> complaints(replacements)[i] is None,
        replacements[i].pattern is Some ==> complaints(replacements)[i] == regex_error(
            replacements[i].pattern->0@,
        ),
{
}

/// An error names the replacement or the file that it is about, and repeats what
/// was found wrong.
pub proof fn law_errors_name_the_place(e: ConfigError)
    ensures
        e matches ConfigError::BothMatchers { index } ==> text::has_prefix(
            e.text(),
            "replacement #"@ + text::decimal(index as nat) + ": "@,
        ),
        e matches ConfigError::NoMatcher { index } ==> text::has_prefix(
            e.text(),
            "replacement #"@ + text::decimal(index as nat) + ": "@,
        ),
        e matches ConfigError::InvalidRegex { index, pattern, error } ==> text::has_prefix(
            e.text(),
            "replacement #"@ + text::decimal(index as nat) + ": "@,
        ) && crate::paths::has_suffix(e.text(), error@),
        e matches ConfigError::Unreadable { path, error } ==> text::has_prefix(
            e.text(),
            "reading config "@ + path@,
        ) && crate::paths::has_suffix(e.text(), error@),
        e matches ConfigError::Unparsable { path, error } ==> text::has_prefix(
            e.text(),
            "parsing config "@ + path@,
        ) && crate::paths::has_suffix(e.text(), error@),
{
    reveal_strlit(": ");
    reveal_strlit(": set either `from` or `pattern`, not both");
    reveal_strlit(": needs either `from` or `pattern`");
    reveal_strlit(": invalid regex `");
    let t = e.text();
    match e {
        ConfigError::BothMatchers { index } => {
            let p = "replacement #"@ + text::decimal(index as nat) + ": "@;
            assert(t.take(p.len() as int) =~= p);
        },
        ConfigError::NoMatcher { index } => {
            let p = "replacement #"@ + text::decimal(index as nat) + ": "@;
            assert(t.take(p.len() as int) =~= p);
        },
        ConfigError::InvalidRegex { index, pattern, error } => {
            let p = "replacement #"@ + text::decimal(index as nat) + ": "@;
            assert(t.take(p.len() as int) =~= p);
            assert(t.skip(t.len() - error@.len()) =~= error@);
        },
        ConfigError::Unreadable { path, error } => {
            let p = "reading config "@ + path@;
            assert(t.take(p.len() as int) =~= p);
            assert(t.skip(t.len() - error@.len()) =~= error@);
        },
        ConfigError::Unparsable { path, error } => {
            let p = "parsing config "@ + path@;
            assert(t.take(p.len() as int) =~= p);
            assert(t.skip(t.len() - error@.len()) =~= error@);
        },
        _ => {},
    }
}

} // verus!
