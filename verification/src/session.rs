//! The dictation state machine.
//!
//! ```text
//!   Ready ──start──► Recording ──stop──► Transcribing ──► Injecting ──► Ready
//!     ▲                  │                    │                           │
//!     └────── cancel ────┴────────────────────┘                           │
//!     └───────────────────────────────────────────────────────────────────┘
//! ```
//!
//! The invariant that matters: a second `start` while already recording is a
//! no-op, not a second capture stream. A compositor bind that misfires would
//! otherwise open two microphones and lose the first recording.
//!
//! The microphone, the recognizer, the clipboard and the focused window are
//! outside: a method says what to do there, and another takes what came of it.

use vstd::prelude::*;
use crate::config::{Config, ConfigError};
use crate::inject::clipboard::ClipboardInjector;
use crate::inject::focus::{Focus, FocusView};
use crate::inject::steps;
use crate::inject::steps::Desktop;
use crate::inject::{AnyInjector, Injector};
use crate::ipc::DaemonState;
use crate::overlay::Cmd;
use crate::postproc;
use crate::text;

verus! {

/// Fewest samples worth a preview: there is not enough audio before that to say
/// anything useful. Eight tenths of a second.
pub const PREVIEW_MIN_SAMPLES: usize = 12_800;

/// Most samples that are still previewed. Each pass transcribes the whole
/// buffer again, so cost grows with the recording while the benefit does not.
/// Forty-five seconds.
pub const PREVIEW_MAX_SAMPLES: usize = 720_000;

/// What a completed dictation did, for logging and notifications.
#[derive(Debug, Clone, PartialEq, Eq)]
pub enum Outcome {
    Injected { text: String, via: String },
    /// Focus moved while we were transcribing, so the text went to the
    /// clipboard instead of into the wrong window.
    ClipboardOnly { text: String, reason: String },
    /// The recording contained no speech.
    NoSpeech,
    Cancelled,
}

/// Why a request was refused, or why a dictation failed.
#[derive(Debug, Clone, PartialEq, Eq)]
pub enum SessionError {
    /// The previous dictation is not finished.
    Busy,
    /// The model is not loaded yet.
    Loading,
    /// There is no recording to stop.
    NotRecording,
    /// There is nothing to cancel.
    NothingToCancel,
    /// The microphone could not be opened.
    Microphone(String),
    /// The recording could not be finished.
    Finishing(String),
    /// The recognizer failed.
    Transcribing(String),
    /// The injector failed.
    Injecting(String),
}

impl SessionError {
    /// The error in words.
    pub open spec fn text(self) -> Seq<char> {
        match self {
            SessionError::Busy => "busy: still finishing the previous dictation"@,
            SessionError::Loading => "the model is still loading"@,
            SessionError::NotRecording => "not recording"@,
            SessionError::NothingToCancel => "nothing to cancel"@,
            SessionError::Microphone(e) => "starting the microphone: "@ + e@,
            SessionError::Finishing(e) => "finishing the recording: "@ + e@,
            SessionError::Transcribing(e) => "transcribing: "@ + e@,
            SessionError::Injecting(e) => "injecting text: "@ + e@,
        }
    }

    /// The error in words.
    pub fn message(&self) -> (r: String)
        ensures
            r@ == self.text(),
    {
        match self {
            SessionError::Busy => "busy: still finishing the previous dictation".to_owned(),
            SessionError::Loading => "the model is still loading".to_owned(),
            SessionError::NotRecording => "not recording".to_owned(),
            SessionError::NothingToCancel => "nothing to cancel".to_owned(),
            SessionError::Microphone(e) => {
                let mut m = "starting the microphone: ".to_owned();
                m.append(e.as_str());
                m
            },
            SessionError::Finishing(e) => {
                let mut m = "finishing the recording: ".to_owned();
                m.append(e.as_str());
                m
            },
            SessionError::Transcribing(e) => {
                let mut m = "transcribing: ".to_owned();
                m.append(e.as_str());
                m
            },
            SessionError::Injecting(e) => {
                let mut m = "injecting text: ".to_owned();
                m.append(e.as_str());
                m
            },
        }
    }
}

/// Live recording state, held only while recording.
#[derive(Debug, Clone, PartialEq, Eq)]
pub struct Active {
    /// Focus at the moment recording began: the window the user meant.
    pub focus: Focus,
    /// When it began, in milliseconds.
    pub started_ms: u64,
    /// When speech was last heard in it, in milliseconds.
    pub heard_ms: Option<u64>,
}

/// A recording as plain values.
pub ghost struct ActiveView {
    pub focus: FocusView,
    pub started_ms: u64,
    pub heard_ms: Option<u64>,
}

impl View for Active {
    type V = ActiveView;

    open spec fn view(&self) -> ActiveView {
        ActiveView {
            focus: self.focus@,
            started_ms: self.started_ms,
            heard_ms: self.heard_ms,
        }
    }
}

/// A session as plain values.
pub ghost struct SessionView {
    pub state: DaemonState,
    pub active: Option<ActiveView>,
    /// Which dictation this is; each recording gets the next number.
    pub dictation: u64,
    pub config: Config,
    pub injector: Seq<char>,
    /// There is an overlay to keep up to date.
    pub overlay: bool,
}

/// The number after `n`; after the last comes the first.
pub open spec fn next_number(n: u64) -> u64 {
    if n == u64::MAX {
        0
    } else {
        (n + 1) as u64
    }
}

impl SessionView {
    /// There is a live recording exactly in the recording state.
    pub open spec fn inv(self) -> bool {
        self.active is Some <==> self.state is Recording
    }

    /// The session once the microphone is open.
    pub open spec fn started(self, focus: FocusView, now_ms: u64) -> SessionView {
        SessionView {
            state: DaemonState::Recording,
            active: Some(ActiveView { focus, started_ms: now_ms, heard_ms: None }),
            dictation: next_number(self.dictation),
            ..self
        }
    }

    /// The session once speech was heard.
    pub open spec fn heard(self, now_ms: u64) -> SessionView {
        SessionView {
            active: match self.active {
                Some(a) => Some(ActiveView { heard_ms: Some(now_ms), ..a }),
                None => None,
            },
            ..self
        }
    }

    /// The session once a recording was handed over for transcription.
    pub open spec fn stopped(self) -> SessionView {
        SessionView { state: DaemonState::Transcribing, active: None, ..self }
    }

    /// Whether a dictation is still being transcribed.
    pub open spec fn transcribing(self, dictation: u64) -> bool {
        self.state is Transcribing && self.dictation == dictation
    }

    /// Whether a dictation is somewhere between stop and the end.
    pub open spec fn working_on(self, dictation: u64) -> bool {
        (self.state is Transcribing || self.state is Injecting) && self.dictation == dictation
    }

    /// Whether there is something to cancel.
    pub open spec fn cancellable(self) -> bool {
        self.state is Recording || self.state is Transcribing
    }

    /// The session in another state, with no recording.
    pub open spec fn idle_in(self, state: DaemonState) -> SessionView {
        SessionView { state, active: None, ..self }
    }
}

/// Why a recording is stopped without a request.
#[derive(Debug, Clone, Copy, PartialEq, Eq, Structural)]
pub enum StopReason {
    /// It has run past `audio.max_duration_secs`.
    TooLong,
    /// Nothing was heard for `audio.silence_timeout_ms` after speech.
    Silence,
}

/// Milliseconds from one time to another; none if the clock went back.
pub open spec fn elapsed(from_ms: u64, now_ms: u64) -> int {
    if now_ms >= from_ms {
        now_ms - from_ms
    } else {
        0
    }
}

/// Whether and why a recording is to be stopped without a request. A limit of
/// zero is none.
pub open spec fn stop_due(v: SessionView, now_ms: u64) -> Option<StopReason> {
    match v.active {
        None => None,
        Some(a) => {
            let max_ms = v.config.audio.max_duration_secs * 1000;
            let silence_ms = v.config.audio.silence_timeout_ms;
            if max_ms > 0 && elapsed(a.started_ms, now_ms) >= max_ms {
                Some(StopReason::TooLong)
            } else if silence_ms > 0 && (a.heard_ms matches Some(heard) && elapsed(heard, now_ms)
                >= silence_ms) {
                Some(StopReason::Silence)
            } else {
                None
            }
        },
    }
}

/// What to do about a request to start.
#[derive(Debug, Clone, PartialEq, Eq)]
pub enum StartStep {
    /// Nothing.
    AlreadyRecording,
    /// Open this microphone, then report with [`Session::recording_started`].
    OpenMicrophone { device: String },
}

/// A recording that was handed over for transcription.
#[derive(Debug, Clone, PartialEq, Eq)]
pub struct Stopped {
    pub active: Active,
    /// The number to name the dictation by from now on.
    pub dictation: u64,
    /// What to tell the overlay, if there is one.
    pub overlay: Option<Cmd>,
}

/// What to do about a request to toggle.
#[derive(Debug, Clone, PartialEq, Eq)]
pub enum ToggleStep {
    Start(StartStep),
    Stop(Stopped),
}

/// What to do with finished audio.
#[derive(Debug, Clone, Copy, PartialEq, Eq, Structural)]
pub enum FinishStep {
    NoSpeech,
    Transcribe,
}

/// What a transcript waits for on its way to the user.
#[derive(Debug, Clone, PartialEq, Eq)]
pub enum DeliveryStep {
    /// It is to be copied to the clipboard; then report with
    /// [`Delivery::copied`]. A copy that fails does not stop the rest.
    Copy,
    /// It is to be seen what is focused now; then report with
    /// [`Delivery::focus_is`].
    LookAtFocus,
    /// It is to be injected; then report with [`Delivery::injected`]. A failure
    /// ends the dictation.
    Inject,
    /// It is where it should be.
    Done(Outcome),
}

/// A step as plain values.
pub ghost enum StepView {
    Copy,
    LookAtFocus,
    Inject,
    Injected { text: Seq<char>, via: Seq<char> },
    ClipboardOnly { text: Seq<char>, reason: Seq<char> },
    NoSpeech,
    Cancelled,
}

impl View for DeliveryStep {
    type V = StepView;

    open spec fn view(&self) -> StepView {
        match *self {
            DeliveryStep::Copy => StepView::Copy,
            DeliveryStep::LookAtFocus => StepView::LookAtFocus,
            DeliveryStep::Inject => StepView::Inject,
            DeliveryStep::Done(Outcome::Injected { text, via }) => StepView::Injected {
                text: text@,
                via: via@,
            },
            DeliveryStep::Done(Outcome::ClipboardOnly { text, reason }) => StepView::ClipboardOnly {
                text: text@,
                reason: reason@,
            },
            DeliveryStep::Done(Outcome::NoSpeech) => StepView::NoSpeech,
            DeliveryStep::Done(Outcome::Cancelled) => StepView::Cancelled,
        }
    }
}

/// Whether `r` is what a request to start gives.
pub open spec fn is_start(r: Result<StartStep, SessionError>, v: SessionView) -> bool {
    match v.state {
        DaemonState::Recording => r == Ok::<StartStep, SessionError>(StartStep::AlreadyRecording),
        DaemonState::Transcribing => r == Err::<StartStep, SessionError>(SessionError::Busy),
        DaemonState::Injecting => r == Err::<StartStep, SessionError>(SessionError::Busy),
        DaemonState::Loading => r == Err::<StartStep, SessionError>(SessionError::Loading),
        DaemonState::Ready => r matches Ok(StartStep::OpenMicrophone { device }) && device@
            == v.config.audio.device@,
    }
}

/// Whether `r` is what a request to stop gives.
pub open spec fn is_stop(r: Result<Stopped, SessionError>, v: SessionView) -> bool {
    if v.state is Recording {
        &&& r is Ok
        &&& v.active == Some((r->Ok_0).active@)
        &&& (r->Ok_0).dictation == v.dictation
        &&& (r->Ok_0).overlay == if v.overlay {
            Some(Cmd::Transcribing)
        } else {
            None
        }
    } else {
        r == Err::<Stopped, SessionError>(SessionError::NotRecording)
    }
}

/// The reason given when text only went to the clipboard.
pub open spec fn moved_text(from: FocusView, to: FocusView) -> Seq<char> {
    "focus moved from "@ + (match from {
        FocusView::Window { id, app } => app,
        _ => "?"@,
    }) + " to "@ + (match to {
        FocusView::Window { id, app } => app,
        _ => "nothing"@,
    }) + " during transcription"@
}

/// Whether text is copied before anything else.
pub open spec fn copied_first(always_copy: bool, redundant: bool) -> bool {
    always_copy && !redundant
}

/// Whether text is copied late: it does not go into a window, and it is not on
/// the clipboard yet.
pub open spec fn copied_late(recorded: FocusView, now: FocusView, copied: bool) -> bool {
    !recorded.same_target(now) && !copied
}

/// A list with one entry unless something stayed the same.
pub open spec fn unless(same: bool, entry: Seq<char>) -> Seq<Seq<char>> {
    if same {
        Seq::empty()
    } else {
        seq![entry]
    }
}

/// What needs a restart when one configuration replaces another: the
/// recognizer, and each setting that the injector was built with.
pub open spec fn restarts(current: Config, fresh: Config) -> Seq<Seq<char>> {
    unless(fresh.engine.agrees(current.engine), "engine (restart sttd to apply)"@) + unless(
        fresh.inject.backends@ == current.inject.backends@,
        "inject.backends (restart sttd to apply)"@,
    ) + unless(
        fresh.inject.paste_keys@ == current.inject.paste_keys@,
        "inject.paste_keys (restart sttd to apply)"@,
    ) + unless(
        fresh.inject.restore_clipboard == current.inject.restore_clipboard,
        "inject.restore_clipboard (restart sttd to apply)"@,
    ) + unless(
        fresh.inject.restore_delay_ms == current.inject.restore_delay_ms,
        "inject.restore_delay_ms (restart sttd to apply)"@,
    )
}

/// Adds an entry to a list unless something stayed the same.
fn note_unless(list: &mut Vec<String>, same: bool, entry: &str)
    ensures
        text::views(final(list)@) == text::views(old(list)@) + unless(same, entry@),
{
    let ghost before = list@;
    if !same {
        list.push(entry.to_owned());
        assert(text::views(list@) =~= text::views(before) + seq![entry@]);
    } else {
        assert(text::views(list@) =~= text::views(before) + Seq::<Seq<char>>::empty());
    }
}

fn since(from_ms: u64, now_ms: u64) -> (r: u64)
    ensures
        r == elapsed(from_ms, now_ms),
{
    if now_ms >= from_ms {
        now_ms - from_ms
    } else {
        0
    }
}

/// One daemon's dictations, one after the other.
pub struct Session {
    state: DaemonState,
    active: Option<Active>,
    dictation: u64,
    config: Config,
    injector_name: String,
    overlay: bool,
}

impl View for Session {
    type V = SessionView;

    closed spec fn view(&self) -> SessionView {
        SessionView {
            state: self.state,
            active: match self.active {
                Some(a) => Some(a@),
                None => None,
            },
            dictation: self.dictation,
            config: self.config,
            injector: self.injector_name@,
            overlay: self.overlay,
        }
    }
}

impl Session {
    /// A session that is ready to record.
    pub fn new(config: Config, injector_name: String, overlay: bool) -> (r: Self)
        ensures
            r@.inv(),
            r@ == (SessionView {
                state: DaemonState::Ready,
                active: None,
                dictation: 0,
                config,
                injector: injector_name@,
                overlay,
            }),
    {
        Session {
            state: DaemonState::Ready,
            active: None,
            dictation: 0,
            config,
            injector_name,
            overlay,
        }
    }

    // ------------------------------------------------------------ looking

    pub fn state(&self) -> (r: DaemonState)
        ensures
            r == self@.state,
    {
        self.state
    }

    pub fn injector_name(&self) -> (r: &str)
        ensures
            r@ == self@.injector,
    {
        self.injector_name.as_str()
    }

    pub fn is_recording(&self) -> (r: bool)
        ensures
            r == self@.state is Recording,
    {
        self.state == DaemonState::Recording
    }

    /// Milliseconds recorded so far, if recording.
    pub fn recording_ms(&self, now_ms: u64) -> (r: Option<u64>)
        requires
            self@.inv(),
        ensures
            match self@.active {
                Some(a) => r matches Some(ms) && ms == elapsed(a.started_ms, now_ms),
                None => r is None,
            },
    {
        match &self.active {
            Some(a) => Some(since(a.started_ms, now_ms)),
            None => None,
        }
    }

    /// Longest permitted recording.
    pub fn max_duration_secs(&self) -> (r: u32)
        ensures
            r == self@.config.audio.max_duration_secs,
    {
        self.config.audio.max_duration_secs
    }

    // ------------------------------------------------------------ guarding

    /// Speech was heard. Without a recording that means nothing.
    pub fn heard(&mut self, now_ms: u64)
        requires
            old(self)@.inv(),
        ensures
            final(self)@.inv(),
            final(self)@ == old(self)@.heard(now_ms),
    {
        if let Some(a) = self.active.take() {
            self.active = Some(
                Active { focus: a.focus, started_ms: a.started_ms, heard_ms: Some(now_ms) },
            );
        }
    }

    /// Whether and why the recording is to be stopped without a request.
    ///
    /// A push-to-talk bind whose key-release never fires would otherwise record
    /// until memory runs out. Stopping transcribes what was captured, since the
    /// user did say something.
    pub fn stop_due(&self, now_ms: u64) -> (r: Option<StopReason>)
        requires
            self@.inv(),
        ensures
            r == stop_due(self@, now_ms),
    {
        let active = match &self.active {
            Some(a) => a,
            None => return None,
        };
        let max_ms: u64 = self.config.audio.max_duration_secs as u64 * 1000;
        if max_ms > 0 && since(active.started_ms, now_ms) >= max_ms {
            return Some(StopReason::TooLong);
        }
        let silence_ms: u64 = self.config.audio.silence_timeout_ms as u64;
        if let Some(heard) = active.heard_ms {
            if silence_ms > 0 && since(heard, now_ms) >= silence_ms {
                return Some(StopReason::Silence);
            }
        }
        None
    }

    // ------------------------------------------------------------ overlay

    /// Whether the overlay's meter should get the current level.
    pub fn pump_overlay(&self) -> (r: bool)
        ensures
            r == meters(self@),
    {
        self.overlay && self.is_recording()
    }

    /// Whether to transcribe what was captured so far and show it.
    ///
    /// Previews run the *same* engine over the growing buffer, so the words
    /// shown while speaking can never disagree with the text finally injected.
    /// `silent` says that no sample reaches the level of speech, and
    /// `engine_free` that the engine is not busy finishing a real dictation:
    /// then a preview is worthless and must not queue up behind it.
    pub fn preview(&self, captured: usize, silent: bool, engine_free: bool) -> (r: bool)
        ensures
            r == previews(self@, captured as int, silent, engine_free),
    {
        self.overlay && self.is_recording() && PREVIEW_MIN_SAMPLES <= captured && captured
            <= PREVIEW_MAX_SAMPLES && !silent && engine_free
    }

    /// What a preview shows: nothing if no words were heard.
    pub fn preview_text(text: &str) -> (r: Option<Cmd>)
        ensures
            if text::trimmed(text@).len() == 0 {
                r is None
            } else {
                r matches Some(Cmd::Text(t)) && t@ == text::trimmed(text@)
            },
    {
        let trimmed = text::trim(text);
        if trimmed.as_str().is_empty() {
            None
        } else {
            Some(Cmd::Text(trimmed))
        }
    }

    // ------------------------------------------------------------ requests

    /// Begin recording. A no-op if already recording.
    pub fn start(&self) -> (r: Result<StartStep, SessionError>)
        ensures
            is_start(r, self@),
    {
        match self.state {
            DaemonState::Recording => Ok(StartStep::AlreadyRecording),
            DaemonState::Transcribing => Err(SessionError::Busy),
            DaemonState::Injecting => Err(SessionError::Busy),
            DaemonState::Loading => Err(SessionError::Loading),
            DaemonState::Ready => Ok(
                StartStep::OpenMicrophone { device: self.config.audio.device.clone() },
            ),
        }
    }

    /// The microphone is open. `focus` is what was focused just then, before
    /// the user could move away.
    pub fn recording_started(&mut self, focus: Focus, now_ms: u64) -> (r: Option<Cmd>)
        requires
            old(self)@.inv(),
            old(self)@.state is Ready,
        ensures
            final(self)@.inv(),
            final(self)@ == old(self)@.started(focus@, now_ms),
            r == if old(self)@.overlay {
                Some(Cmd::Show)
            } else {
                None
            },
    {
        self.active = Some(Active { focus, started_ms: now_ms, heard_ms: None });
        self.dictation = if self.dictation == u64::MAX {
            0
        } else {
            self.dictation + 1
        };
        self.state = DaemonState::Recording;
        if self.overlay {
            Some(Cmd::Show)
        } else {
            None
        }
    }

    /// Stop recording and hand the recording over for transcription.
    pub fn stop(&mut self) -> (r: Result<Stopped, SessionError>)
        requires
            old(self)@.inv(),
        ensures
            final(self)@.inv(),
            is_stop(r, old(self)@),
            final(self)@ == if old(self)@.state is Recording {
                old(self)@.stopped()
            } else {
                old(self)@
            },
    {
        match self.active.take() {
            Some(active) => {
                self.state = DaemonState::Transcribing;
                let overlay = if self.overlay {
                    Some(Cmd::Transcribing)
                } else {
                    None
                };
                Ok(Stopped { active, dictation: self.dictation, overlay })
            },
            None => Err(SessionError::NotRecording),
        }
    }

    /// Start if idle, stop if recording.
    pub fn toggle(&mut self) -> (r: Result<ToggleStep, SessionError>)
        requires
            old(self)@.inv(),
        ensures
            final(self)@.inv(),
            if old(self)@.state is Recording {
                &&& r matches Ok(ToggleStep::Stop(s)) && is_stop(Ok(s), old(self)@)
                &&& final(self)@ == old(self)@.stopped()
            } else {
                &&& final(self)@ == old(self)@
                &&& match r {
                    Ok(ToggleStep::Start(s)) => is_start(Ok(s), old(self)@),
                    Ok(ToggleStep::Stop(_)) => false,
                    Err(e) => is_start(Err(e), old(self)@),
                }
            },
    {
        if self.is_recording() {
            match self.stop() {
                Ok(s) => Ok(ToggleStep::Stop(s)),
                Err(e) => Err(e),
            }
        } else {
            match self.start() {
                Ok(s) => Ok(ToggleStep::Start(s)),
                Err(e) => Err(e),
            }
        }
    }

    /// Abandon the current recording or transcription; inject nothing.
    ///
    /// A recording is thrown away without transcribing it. A transcription
    /// that is under way may run to its end, but [`Session::begin_delivery`]
    /// then refuses its text.
    pub fn cancel(&mut self) -> (r: Result<(Outcome, Option<Cmd>), SessionError>)
        requires
            old(self)@.inv(),
        ensures
            final(self)@.inv(),
            if old(self)@.cancellable() {
                &&& r == Ok::<(Outcome, Option<Cmd>), SessionError>(
                    (
                        Outcome::Cancelled,
                        if old(self)@.overlay {
                            Some(Cmd::Hide)
                        } else {
                            None
                        },
                    ),
                )
                &&& final(self)@ == old(self)@.idle_in(DaemonState::Ready)
            } else {
                &&& r == Err::<(Outcome, Option<Cmd>), SessionError>(
                    SessionError::NothingToCancel,
                )
                &&& final(self)@ == old(self)@
            },
    {
        if self.state == DaemonState::Recording || self.state == DaemonState::Transcribing {
            self.active = None;
            self.state = DaemonState::Ready;
            let overlay = if self.overlay {
                Some(Cmd::Hide)
            } else {
                None
            };
            Ok((Outcome::Cancelled, overlay))
        } else {
            Err(SessionError::NothingToCancel)
        }
    }

    /// Take a configuration that was read anew. Engine and injector changes
    /// need a restart, which this reports rather than silently ignoring. A
    /// configuration that could not be loaded leaves the current one in force.
    pub fn reload(&mut self, fresh: Result<Config, ConfigError>) -> (r: Result<
        Vec<String>,
        ConfigError,
    >)
        requires
            old(self)@.inv(),
        ensures
            final(self)@.inv(),
            match fresh {
                Ok(config) => {
                    &&& r matches Ok(list) && text::views(list@) == restarts(
                        old(self)@.config,
                        config,
                    )
                    &&& final(self)@ == (SessionView { config, ..old(self)@ })
                },
                Err(e) => {
                    &&& r == Err::<Vec<String>, ConfigError>(e)
                    &&& final(self)@ == old(self)@
                },
            },
    {
        let fresh = match fresh {
            Ok(config) => config,
            Err(e) => return Err(e),
        };
        let mut list: Vec<String> = Vec::new();
        let now = &self.config.inject;
        note_unless(
            &mut list,
            fresh.engine.same_as(&self.config.engine),
            "engine (restart sttd to apply)",
        );
        note_unless(
            &mut list,
            fresh.inject.same_backends(now),
            "inject.backends (restart sttd to apply)",
        );
        note_unless(
            &mut list,
            text::same(fresh.inject.paste_keys.as_str(), now.paste_keys.as_str()),
            "inject.paste_keys (restart sttd to apply)",
        );
        note_unless(
            &mut list,
            fresh.inject.restore_clipboard == now.restore_clipboard,
            "inject.restore_clipboard (restart sttd to apply)",
        );
        note_unless(
            &mut list,
            fresh.inject.restore_delay_ms == now.restore_delay_ms,
            "inject.restore_delay_ms (restart sttd to apply)",
        );
        assert(text::views(list@) =~= restarts(self.config, fresh));
        self.config = fresh;
        Ok(list)
    }

    // ------------------------------------------------------------ finishing

    /// What to do with finished audio: nothing and silence are not worth
    /// transcribing.
    pub fn after_recording(samples: usize, silent: bool) -> (r: FinishStep)
        ensures
            r == finish_of(samples as int, silent),
    {
        if samples == 0 || silent {
            FinishStep::NoSpeech
        } else {
            FinishStep::Transcribe
        }
    }

    /// The text to deliver, if any words were heard.
    pub fn after_transcript(text: &str) -> (r: Option<String>)
        ensures
            text::opt_view(r) == if text::trimmed(text@).len() == 0 {
                None
            } else {
                Some(text::trimmed(text@))
            },
    {
        let trimmed = text::trim(text);
        if trimmed.as_str().is_empty() {
            None
        } else {
            Some(trimmed)
        }
    }

    /// The text to deliver, as the user wants to have it: with their
    /// substitutions and cosmetic changes. None if no words were heard, or if
    /// the substitutions left nothing.
    pub fn text_to_deliver(&self, text: &str) -> (r: Option<String>)
        ensures
            text::opt_view(r) == {
                let heard = text::trimmed(text@);
                if heard.len() == 0 || postproc::substituted_by(self@.config, heard).len() == 0 {
                    None
                } else {
                    Some(postproc::polished(self@.config, heard))
                }
            },
    {
        let heard = match Self::after_transcript(text) {
            Some(heard) => heard,
            None => return None,
        };
        let left = postproc::substitute(&self.config, heard.as_str());
        if left.as_str().is_empty() {
            None
        } else {
            Some(self.config.postproc.finish(left.as_str()))
        }
    }

    /// A transcript is there, and is on its way from now on. Refused when the
    /// dictation was cancelled.
    ///
    /// `redundant` says that the backend leaves text on the clipboard itself.
    pub fn begin_delivery(
        &mut self,
        dictation: u64,
        text: &str,
        recorded: &Focus,
        redundant: bool,
    ) -> (r: Option<Delivery>)
        requires
            old(self)@.inv(),
        ensures
            final(self)@.inv(),
            if old(self)@.transcribing(dictation) {
                &&& final(self)@ == old(self)@.idle_in(DaemonState::Injecting)
                &&& r matches Some(d) && d@ == first_stage(
                    text@,
                    recorded@,
                    old(self)@.injector,
                    old(self)@.config.inject.always_copy,
                    redundant,
                )
            } else {
                &&& final(self)@ == old(self)@
                &&& r is None
            },
    {
        if self.state != DaemonState::Transcribing || self.dictation != dictation {
            return None;
        }
        self.state = DaemonState::Injecting;
        // Not when the backend is going to write the clipboard anyway; copying
        // twice is pure waste.
        let copy = self.config.inject.always_copy && !redundant;
        Some(
            Delivery {
                text: text.to_owned(),
                recorded: recorded.copied(),
                via: self.injector_name.clone(),
                copied: copy,
                reason: None,
                step: if copy {
                    DeliveryStep::Copy
                } else {
                    DeliveryStep::LookAtFocus
                },
            },
        )
    }

    /// A dictation has come to its end, with whatever outcome. One that was
    /// cancelled in between changes nothing any more: another may be running.
    pub fn finished(&mut self, dictation: u64) -> (r: Option<Cmd>)
        requires
            old(self)@.inv(),
        ensures
            final(self)@.inv(),
            if old(self)@.working_on(dictation) {
                &&& final(self)@ == old(self)@.idle_in(DaemonState::Ready)
                &&& r == if old(self)@.overlay {
                    Some(Cmd::Hide)
                } else {
                    None
                }
            } else {
                &&& final(self)@ == old(self)@
                &&& r is None
            },
    {
        if (self.state == DaemonState::Transcribing || self.state == DaemonState::Injecting)
            && self.dictation == dictation {
            self.state = DaemonState::Ready;
            if self.overlay {
                Some(Cmd::Hide)
            } else {
                None
            }
        } else {
            None
        }
    }
}

// ---------------------------------------------------------------- delivery

/// A transcript on its way as plain values.
pub ghost struct DeliveryView {
    pub text: Seq<char>,
    pub recorded: FocusView,
    pub via: Seq<char>,
    /// The text was copied, or is about to be.
    pub copied: bool,
    /// Why the text goes nowhere but the clipboard, once that is decided.
    pub reason: Option<Seq<char>>,
    pub step: StepView,
}

/// The beginning of a delivery. The safety net comes first: whatever happens
/// next, the text is recoverable.
pub open spec fn first_stage(
    text: Seq<char>,
    recorded: FocusView,
    via: Seq<char>,
    always_copy: bool,
    redundant: bool,
) -> DeliveryView {
    DeliveryView {
        text,
        recorded,
        via,
        copied: copied_first(always_copy, redundant),
        reason: None,
        step: if copied_first(always_copy, redundant) {
            StepView::Copy
        } else {
            StepView::LookAtFocus
        },
    }
}

impl DeliveryView {
    /// The delivery once it is known what is focused now, which is `now`.
    ///
    /// The focus guard. Injection types into whatever is focused *now*, so if
    /// that is no longer the window the user dictated into, typing would put
    /// their words somewhere they did not intend. They go to the clipboard
    /// instead, if they are not there yet.
    pub open spec fn guarded(self, now: FocusView) -> DeliveryView {
        let reason = moved_text(self.recorded, now);
        if self.recorded.same_target(now) {
            DeliveryView { step: StepView::Inject, ..self }
        } else {
            DeliveryView {
                copied: true,
                reason: Some(reason),
                step: if copied_late(self.recorded, now, self.copied) {
                    StepView::Copy
                } else {
                    StepView::ClipboardOnly { text: self.text, reason }
                },
                ..self
            }
        }
    }

    /// The delivery once its text was injected.
    pub open spec fn after_injection(self) -> DeliveryView {
        DeliveryView { step: StepView::Injected { text: self.text, via: self.via }, ..self }
    }

    /// The delivery once the text was copied, or could not be.
    pub open spec fn after_copy(self) -> DeliveryView {
        DeliveryView {
            step: match self.reason {
                Some(reason) => StepView::ClipboardOnly { text: self.text, reason },
                None => StepView::LookAtFocus,
            },
            ..self
        }
    }
}

/// A transcript on its way to the user.
pub struct Delivery {
    text: String,
    recorded: Focus,
    via: String,
    copied: bool,
    reason: Option<String>,
    step: DeliveryStep,
}

impl View for Delivery {
    type V = DeliveryView;

    closed spec fn view(&self) -> DeliveryView {
        DeliveryView {
            text: self.text@,
            recorded: self.recorded@,
            via: self.via@,
            copied: self.copied,
            reason: text::opt_view(self.reason),
            step: self.step@,
        }
    }
}

impl Delivery {
    /// The text that is being delivered.
    pub fn text(&self) -> (r: &str)
        ensures
            r@ == self@.text,
    {
        self.text.as_str()
    }

    /// What the transcript waits for.
    pub fn step(&self) -> (r: &DeliveryStep)
        ensures
            r@ == self@.step,
    {
        &self.step
    }

    /// The text was copied, or could not be.
    pub fn copied(&mut self)
        requires
            old(self)@.step is Copy,
        ensures
            final(self)@ == old(self)@.after_copy(),
    {
        self.step = match &self.reason {
            Some(reason) => DeliveryStep::Done(
                Outcome::ClipboardOnly { text: self.text.clone(), reason: reason.clone() },
            ),
            None => DeliveryStep::LookAtFocus,
        };
    }

    /// This is focused now.
    pub fn focus_is(&mut self, now: &Focus)
        requires
            old(self)@.step is LookAtFocus,
        ensures
            final(self)@ == old(self)@.guarded(now@),
    {
        if self.recorded.is_same_target(now) {
            self.step = DeliveryStep::Inject;
            return;
        }
        let reason = moved(&self.recorded, now);
        self.step = if self.copied {
            DeliveryStep::Done(
                Outcome::ClipboardOnly { text: self.text.clone(), reason: reason.clone() },
            )
        } else {
            DeliveryStep::Copy
        };
        self.copied = true;
        self.reason = Some(reason);
    }

    /// The text was injected.
    pub fn injected(&mut self)
        requires
            old(self)@.step is Inject,
        ensures
            final(self)@ == old(self)@.after_injection(),
    {
        self.step = DeliveryStep::Done(
            Outcome::Injected { text: self.text.clone(), via: self.via.clone() },
        );
    }
}

fn moved(recorded: &Focus, now: &Focus) -> (r: String)
    ensures
        r@ == moved_text(recorded@, now@),
{
    let mut reason = "focus moved from ".to_owned();
    reason.append(
        match recorded.app() {
            Some(app) => app,
            None => "?",
        },
    );
    reason.append(" to ");
    reason.append(
        match now.app() {
            Some(app) => app,
            None => "nothing",
        },
    );
    reason.append(" during transcription");
    reason
}

/// A delivery injects exactly into the window that was dictated into, as far as
/// the compositor tells. When it does not inject, the text is copied, and the
/// delivery ends there with the text and the reason.
pub proof fn law_delivery_is_guarded(
    text: Seq<char>,
    recorded: FocusView,
    via: Seq<char>,
    always_copy: bool,
    redundant: bool,
    now: FocusView,
)
    ensures
        ({
            let begun = first_stage(text, recorded, via, always_copy, redundant);
            let looking = if begun.step is Copy {
                begun.after_copy()
            } else {
                begun
            };
            let guarded = looking.guarded(now);
            let end = if guarded.step is Copy {
                guarded.after_copy()
            } else {
                guarded
            };
            &&& looking.step is LookAtFocus
            &&& guarded.step is Inject <==> recorded.same_target(now)
            &&& guarded.step is Inject ==> begun.step is Copy || !always_copy || redundant
            &&& !recorded.same_target(now) ==> begun.step is Copy || guarded.step is Copy
            &&& !recorded.same_target(now) ==> end.step == (StepView::ClipboardOnly {
                text,
                reason: moved_text(recorded, now),
            })
        }),
{
}

/// The user's session once a text was copied.
pub open spec fn copied(text: Seq<char>, d: Desktop) -> Desktop {
    steps::after(steps::StepView::Copy { text }, d)
}

/// The user's session once a text was delivered with `always_copy`, where
/// nothing failed: it is copied first unless the backend copies it itself, then
/// injected, or copied if the focus moved and that was not done yet.
pub open spec fn delivered(
    injector: AnyInjector,
    text: Seq<char>,
    recorded: FocusView,
    via: Seq<char>,
    now: FocusView,
    d: Desktop,
) -> Desktop {
    let begun = first_stage(text, recorded, via, true, injector.copies());
    let ready = if begun.step is Copy {
        copied(text, d)
    } else {
        d
    };
    let looking = if begun.step is Copy {
        begun.after_copy()
    } else {
        begun
    };
    let guarded = looking.guarded(now);
    if guarded.step is Inject {
        steps::after_all(injector.plan(text), ready)
    } else if guarded.step is Copy {
        copied(text, ready)
    } else {
        ready
    }
}

/// No transcript is lost. With `always_copy` it is on the clipboard at the end,
/// whichever backend runs and wherever the focus went. A backend that does not
/// copy it itself finds it there, and does not take it away: when one of its
/// steps fails, after any number of them, the text can still be pasted.
pub proof fn law_no_transcript_is_lost(
    injector: AnyInjector,
    text: Seq<char>,
    recorded: FocusView,
    via: Seq<char>,
    now: FocusView,
    d: Desktop,
)
    requires
        text.len() > 0,
    ensures
        delivered(injector, text, recorded, via, now, d).clipboard == Some(text),
        !injector.copies() ==> first_stage(text, recorded, via, true, injector.copies()).step
            is Copy,
        !injector.copies() ==> forall|n: int|
            0 <= n <= injector.plan(text).len() ==> (#[trigger] steps::after_all(
                injector.plan(text).take(n),
                copied(text, d),
            )).clipboard == Some(text),
{
    let plan = injector.plan(text);
    let ready = copied(text, d);
    assert(plan.take(plan.len() as int) =~= plan);
    match injector {
        AnyInjector::Clipboard(i) => {
            assert forall|n: int| 0 <= n <= plan.len() implies (#[trigger] steps::after_all(
                plan.take(n),
                ready,
            )).clipboard == Some(text) by {
                lemma_clipboard_keeps_the_text(i, text, ready, n);
            }
        },
        AnyInjector::Wtype(_) => {
            reveal_with_fuel(steps::after_all, 2);
        },
        AnyInjector::CopyOnly(_) => {
            reveal_with_fuel(steps::after_all, 2);
        },
    }
}

/// The clipboard backend saves what it finds, which is the text, and puts that
/// back: the text is there all along.
proof fn lemma_clipboard_keeps_the_text(i: ClipboardInjector, text: Seq<char>, d: Desktop, n: int)
    requires
        text.len() > 0,
        d.clipboard == Some(text),
        0 <= n <= i.plan(text).len(),
    ensures
        steps::after_all(i.plan(text).take(n), d).clipboard == Some(text),
        i.restore && n > 0 ==> steps::after_all(i.plan(text).take(n), d).saved == Some(text),
    decreases n,
{
    let plan = i.plan(text);
    if n > 0 {
        lemma_clipboard_keeps_the_text(i, text, d, n - 1);
        assert(plan.take(n).drop_last() =~= plan.take(n - 1));
        assert(plan.take(n).last() == plan[n - 1]);
    }
}

// ---------------------------------------------------------------- laws

/// Something that happens to a session.
pub ghost enum Event {
    /// A microphone was opened, when that was asked for.
    Started { focus: FocusView, now_ms: u64 },
    Heard { now_ms: u64 },
    Stop,
    Cancel,
    Reload { config: Config },
    BeginDelivery { dictation: u64 },
    Finished { dictation: u64 },
}

/// The session after an event, as the methods have it.
pub open spec fn after(v: SessionView, event: Event) -> SessionView {
    match event {
        Event::Started { focus, now_ms } => if v.state is Ready {
            v.started(focus, now_ms)
        } else {
            v
        },
        Event::Heard { now_ms } => v.heard(now_ms),
        Event::Stop => if v.state is Recording {
            v.stopped()
        } else {
            v
        },
        Event::Cancel => if v.cancellable() {
            v.idle_in(DaemonState::Ready)
        } else {
            v
        },
        Event::Reload { config } => SessionView { config, ..v },
        Event::BeginDelivery { dictation } => if v.transcribing(dictation) {
            v.idle_in(DaemonState::Injecting)
        } else {
            v
        },
        Event::Finished { dictation } => if v.working_on(dictation) {
            v.idle_in(DaemonState::Ready)
        } else {
            v
        },
    }
}

/// The session after some events, in order.
pub open spec fn after_all(v: SessionView, events: Seq<Event>) -> SessionView
    decreases events.len(),
{
    if events.len() == 0 {
        v
    } else {
        after(after_all(v, events.drop_last()), events.last())
    }
}

/// Whatever happens, there is a live recording exactly in the recording state:
/// a recording never goes missing, and there are never two.
pub proof fn law_one_recording_at_a_time(v: SessionView, events: Seq<Event>)
    requires
        v.inv(),
    ensures
        after_all(v, events).inv(),
    decreases events.len(),
{
    if events.len() > 0 {
        law_one_recording_at_a_time(v, events.drop_last());
    }
}

/// A session that is loaded never goes back to loading.
pub proof fn law_loading_is_over(v: SessionView, events: Seq<Event>)
    requires
        !(v.state is Loading),
    ensures
        !(after_all(v, events).state is Loading),
    decreases events.len(),
{
    if events.len() > 0 {
        law_loading_is_over(v, events.drop_last());
    }
}

/// A recording is stopped for its length exactly if a limit is set and the
/// recording has run for at least that many seconds. Otherwise it is stopped
/// for silence exactly if a timeout is set, something was said, and nothing was
/// heard since for at least that long. Without a recording nothing is stopped.
pub proof fn law_when_a_recording_is_stopped(v: SessionView, now_ms: u64)
    requires
        v.inv(),
    ensures
        stop_due(v, now_ms) is Some ==> v.state is Recording,
        stop_due(v, now_ms) == Some(StopReason::TooLong) <==> {
            &&& v.state is Recording
            &&& v.config.audio.max_duration_secs > 0
            &&& now_ms - (v.active->0).started_ms >= v.config.audio.max_duration_secs * 1000
        },
        stop_due(v, now_ms) == Some(StopReason::Silence) <==> {
            &&& v.state is Recording
            &&& stop_due(v, now_ms) != Some(StopReason::TooLong)
            &&& v.config.audio.silence_timeout_ms > 0
            &&& (v.active->0).heard_ms is Some
            &&& now_ms - ((v.active->0).heard_ms->0) >= v.config.audio.silence_timeout_ms
        },
{
}

/// A recording that nobody stops is stopped by itself once it has run for as
/// long as the limit allows, and not a moment before as long as somebody
/// speaks.
pub proof fn law_a_spoken_recording_runs_to_its_limit(
    v: SessionView,
    focus: FocusView,
    started_ms: u64,
    heard_ms: u64,
    now_ms: u64,
)
    requires
        v.inv(),
        v.state is Ready,
        started_ms <= heard_ms <= now_ms,
        v.config.audio.silence_timeout_ms == 0 || now_ms - heard_ms
            < v.config.audio.silence_timeout_ms,
    ensures
        ({
            let spoken = after(
                after(v, Event::Started { focus, now_ms: started_ms }),
                Event::Heard { now_ms: heard_ms },
            );
            let limit = v.config.audio.max_duration_secs;
            stop_due(spoken, now_ms) == if limit > 0 && now_ms - started_ms >= limit * 1000 {
                Some(StopReason::TooLong)
            } else {
                None
            }
        }),
{
}

/// A start while recording changes nothing: the recording that is under way
/// goes on with its focus, its start and its number.
pub proof fn law_second_start_is_a_no_op(v: SessionView, focus: FocusView, now_ms: u64)
    requires
        v.state is Recording,
    ensures
        after(v, Event::Started { focus, now_ms }) == v,
        is_start(Ok(StartStep::AlreadyRecording), v),
{
}

/// A dictation that was cancelled is never delivered, whatever is dictated
/// after it, as long as the numbers do not come round.
pub proof fn law_cancelled_is_never_delivered(v: SessionView, events: Seq<Event>)
    requires
        v.inv(),
        v.cancellable(),
        events.len() <= u64::MAX,
    ensures
        ({
            let later = after_all(after(v, Event::Cancel), events);
            &&& !later.transcribing(v.dictation)
            &&& !later.working_on(v.dictation)
        }),
{
    lemma_numbers_advance(after(v, Event::Cancel), events);
}

/// How many recordings were started by some events.
spec fn starts(v: SessionView, events: Seq<Event>) -> nat
    decreases events.len(),
{
    if events.len() == 0 {
        0
    } else {
        starts(v, events.drop_last()) + (if events.last() is Started && after_all(
            v,
            events.drop_last(),
        ).state is Ready {
            1nat
        } else {
            0nat
        })
    }
}

proof fn lemma_numbers_advance(v: SessionView, events: Seq<Event>)
    requires
        v.inv(),
        v.state is Ready,
        events.len() <= u64::MAX,
    ensures
        starts(v, events) <= events.len(),
        after_all(v, events).dictation as int == if v.dictation + starts(v, events) > u64::MAX {
            v.dictation + starts(v, events) - u64::MAX - 1
        } else {
            v.dictation + starts(v, events)
        },
        starts(v, events) == 0 ==> after_all(v, events).state is Ready,
    decreases events.len(),
{
    if events.len() > 0 {
        lemma_numbers_advance(v, events.drop_last());
    }
}

/// The end of a dictation that was cancelled does not disturb the one that is
/// running now.
pub proof fn law_stale_end_changes_nothing(v: SessionView, dictation: u64)
    requires
        dictation != v.dictation,
    ensures
        after(v, Event::Finished { dictation }) == v,
        after(v, Event::BeginDelivery { dictation }) == v,
{
}

/// A dictation that is not disturbed comes back to where it began, ready for
/// the next one.
pub proof fn law_dictation_comes_full_circle(v: SessionView, focus: FocusView, now_ms: u64)
    requires
        v.inv(),
        v.state is Ready,
    ensures
        ({
            let recording = after(v, Event::Started { focus, now_ms });
            let d = recording.dictation;
            let stopped = after(recording, Event::Stop);
            let delivering = after(stopped, Event::BeginDelivery { dictation: d });
            let done = after(delivering, Event::Finished { dictation: d });
            &&& recording.state is Recording
            &&& stopped.state is Transcribing
            &&& delivering.state is Injecting
            &&& done == SessionView { dictation: d, ..v }
            &&& after(stopped, Event::Finished { dictation: d }) == done
            &&& after(recording, Event::Cancel) == done
            &&& after(stopped, Event::Cancel) == done
        }),
{
}

/// A configuration that changes nothing needs no restart.
pub proof fn law_unchanged_config_needs_no_restart(config: Config)
    ensures
        restarts(config, config).len() == 0,
{
}

/// A changed engine always asks for a restart.
pub proof fn law_engine_change_needs_a_restart(current: Config, fresh: Config)
    requires
        !fresh.engine.agrees(current.engine),
    ensures
        restarts(current, fresh).contains("engine (restart sttd to apply)"@),
{
    assert(restarts(current, fresh)[0] == "engine (restart sttd to apply)"@);
}

/// A change of what the injector was built with is reported, not silently
/// ignored: with the same recognizer something needs a restart exactly if one
/// of those settings differs, and each that does is named.
pub proof fn law_injector_change_needs_a_restart(current: Config, fresh: Config)
    requires
        fresh.engine.agrees(current.engine),
    ensures
        restarts(current, fresh).len() > 0 <==> !fresh.inject.builds_alike(current.inject),
        fresh.inject.backends@ != current.inject.backends@ ==> restarts(current, fresh).contains(
            "inject.backends (restart sttd to apply)"@,
        ),
        fresh.inject.paste_keys@ != current.inject.paste_keys@ ==> restarts(
            current,
            fresh,
        ).contains("inject.paste_keys (restart sttd to apply)"@),
        fresh.inject.restore_clipboard != current.inject.restore_clipboard ==> restarts(
            current,
            fresh,
        ).contains("inject.restore_clipboard (restart sttd to apply)"@),
        fresh.inject.restore_delay_ms != current.inject.restore_delay_ms ==> restarts(
            current,
            fresh,
        ).contains("inject.restore_delay_ms (restart sttd to apply)"@),
{
    let a = unless(fresh.engine.agrees(current.engine), "engine (restart sttd to apply)"@);
    let b = unless(
        fresh.inject.backends@ == current.inject.backends@,
        "inject.backends (restart sttd to apply)"@,
    );
    let c = unless(
        fresh.inject.paste_keys@ == current.inject.paste_keys@,
        "inject.paste_keys (restart sttd to apply)"@,
    );
    let d = unless(
        fresh.inject.restore_clipboard == current.inject.restore_clipboard,
        "inject.restore_clipboard (restart sttd to apply)"@,
    );
    let e = unless(
        fresh.inject.restore_delay_ms == current.inject.restore_delay_ms,
        "inject.restore_delay_ms (restart sttd to apply)"@,
    );
    let all = restarts(current, fresh);
    assert(all == a + b + c + d + e);
    if b.len() > 0 {
        assert(all[a.len() as int] == b[0]);
    }
    if c.len() > 0 {
        assert(all[(a + b).len() as int] == c[0]);
    }
    if d.len() > 0 {
        assert(all[(a + b + c).len() as int] == d[0]);
    }
    if e.len() > 0 {
        assert(all[(a + b + c + d).len() as int] == e[0]);
    }
}

/// What an event changes. A recording starts only when the daemon is ready, and
/// remembers the window and the time; a sound that is heard is noted on it; it
/// is handed over on a stop; a cancellation drops it or its transcription; a
/// transcription is delivered, and ends, only under its own number. Whatever an
/// event does not speak of stays as it was.
pub proof fn law_what_an_event_changes(
    v: SessionView,
    focus: FocusView,
    now_ms: u64,
    config: Config,
    dictation: u64,
)
    ensures
        ({
            let w = after(v, Event::Started { focus, now_ms });
            &&& v.state is Ready && v.dictation == u64::MAX ==> w.dictation == 0
            &&& v.state is Ready ==> w.state is Recording && w.active is Some && (
            w.active->0).focus == focus && (w.active->0).started_ms == now_ms && (
            w.active->0).heard_ms is None && w.dictation != v.dictation && (v.dictation < u64::MAX
                ==> w.dictation == v.dictation + 1)
            &&& !(v.state is Ready) ==> w == v
            &&& w.config == v.config && w.injector == v.injector && w.overlay == v.overlay
        }),
        ({
            let w = after(v, Event::Heard { now_ms });
            &&& v.active is Some ==> w.active is Some && (w.active->0).heard_ms == Some(now_ms) && (
            w.active->0).focus == (v.active->0).focus && (w.active->0).started_ms == (
            v.active->0).started_ms
            &&& v.active is None ==> w.active is None
            &&& w.state == v.state && w.dictation == v.dictation
            &&& w.config == v.config && w.injector == v.injector && w.overlay == v.overlay
        }),
        ({
            let w = after(v, Event::Stop);
            &&& v.state is Recording ==> w.state is Transcribing && w.active is None
            &&& !(v.state is Recording) ==> w == v
            &&& w.dictation == v.dictation
            &&& w.config == v.config && w.injector == v.injector && w.overlay == v.overlay
        }),
        ({
            let w = after(v, Event::Cancel);
            &&& v.state is Recording || v.state is Transcribing ==> w.state is Ready
                && w.active is None
            &&& !(v.state is Recording || v.state is Transcribing) ==> w == v
            &&& w.dictation == v.dictation
            &&& w.config == v.config && w.injector == v.injector && w.overlay == v.overlay
        }),
        ({
            let w = after(v, Event::Reload { config });
            &&& w.config == config
            &&& w.state == v.state && w.active == v.active && w.dictation == v.dictation
            &&& w.injector == v.injector && w.overlay == v.overlay
        }),
        ({
            let w = after(v, Event::BeginDelivery { dictation });
            &&& v.state is Transcribing && v.dictation == dictation ==> w.state is Injecting
                && w.active is None
            &&& !(v.state is Transcribing && v.dictation == dictation) ==> w == v
            &&& w.dictation == v.dictation
            &&& w.config == v.config && w.injector == v.injector && w.overlay == v.overlay
        }),
        ({
            let w = after(v, Event::Finished { dictation });
            &&& (v.state is Transcribing || v.state is Injecting) && v.dictation == dictation
                ==> w.state is Ready && w.active is None
            &&& !((v.state is Transcribing || v.state is Injecting) && v.dictation == dictation)
                ==> w == v
            &&& w.dictation == v.dictation
            &&& w.config == v.config && w.injector == v.injector && w.overlay == v.overlay
        }),
{
}

/// While it is being made, a recording keeps its number, the window and the time
/// that it began with, whatever is heard and however often the configuration is
/// read again.
pub proof fn law_recordings_keep_what_they_began_with(v: SessionView, events: Seq<Event>)
    requires
        v.state is Recording,
        v.active is Some,
        forall|i: int|
            0 <= i < events.len() ==> ((#[trigger] events[i]) is Heard || events[i] is Reload
                || events[i] is Started),
    ensures
        after_all(v, events).state is Recording,
        after_all(v, events).active is Some,
        (after_all(v, events).active->0).focus == (v.active->0).focus,
        (after_all(v, events).active->0).started_ms == (v.active->0).started_ms,
        after_all(v, events).dictation == v.dictation,
    decreases events.len(),
{
    if events.len() > 0 {
        let front = events.drop_last();
        assert forall|i: int| 0 <= i < front.len() implies ((#[trigger] front[i]) is Heard
            || front[i] is Reload || front[i] is Started) by {
            assert(front[i] == events[i]);
        }
        law_recordings_keep_what_they_began_with(v, front);
        assert(events[events.len() - 1] == events.last());
    }
}

/// The silence is counted from the last sound: a later one takes the place of
/// an earlier one.
pub proof fn law_last_sound_counts(v: SessionView, first_ms: u64, last_ms: u64)
    ensures
        after(after(v, Event::Heard { now_ms: first_ms }), Event::Heard { now_ms: last_ms })
            == after(v, Event::Heard { now_ms: last_ms }),
{
}

/// What a start answers in each state: a second one is no fault, one that comes
/// too early or while a dictation is being finished is refused, and otherwise
/// the configured device is opened.
pub proof fn law_what_a_start_answers(r: Result<StartStep, SessionError>, v: SessionView)
    requires
        is_start(r, v),
    ensures
        v.state is Ready <==> (r matches Ok(s) && s is OpenMicrophone),
        v.state is Ready ==> (r matches Ok(StartStep::OpenMicrophone { device }) && device@
            == v.config.audio.device@),
        v.state is Recording <==> (r matches Ok(s) && s is AlreadyRecording),
        v.state is Loading <==> (r matches Err(e) && e is Loading),
        v.state is Transcribing || v.state is Injecting <==> (r matches Err(e) && e is Busy),
{
}

/// A stop hands over the recording as it was made, under its number; without
/// one it is refused. The overlay is told exactly if there is one.
pub proof fn law_what_a_stop_hands_over(r: Result<Stopped, SessionError>, v: SessionView)
    requires
        is_stop(r, v),
    ensures
        r is Ok <==> v.state is Recording,
        r matches Err(e) ==> e is NotRecording,
        r matches Ok(s) ==> Some(s.active@) == v.active && s.dictation == v.dictation && (
        s.overlay is Some <==> v.overlay) && (s.overlay matches Some(c) ==> c is Transcribing),
{
}

/// Time only runs forward: what has passed is the difference, and nothing if the
/// clock was set back.
pub proof fn law_elapsed_time(from_ms: u64, now_ms: u64)
    ensures
        elapsed(from_ms, now_ms) >= 0,
        from_ms <= now_ms ==> from_ms + elapsed(from_ms, now_ms) == now_ms,
        now_ms <= from_ms ==> elapsed(from_ms, now_ms) == 0,
{
}

/// A transcript is copied ahead of the look at the focus exactly if that is
/// wanted and the injector would not copy it anyway; it is injected exactly if
/// the focus is where it was, and otherwise left on the clipboard, to which it
/// is copied only once.
pub proof fn law_steps_of_a_delivery(
    text: Seq<char>,
    recorded: FocusView,
    via: Seq<char>,
    always_copy: bool,
    redundant: bool,
    now: FocusView,
)
    ensures
        ({
            let begun = first_stage(text, recorded, via, always_copy, redundant);
            let looking = if begun.step is Copy {
                begun.after_copy()
            } else {
                begun
            };
            let guarded = looking.guarded(now);
            &&& begun.step is Copy <==> always_copy && !redundant
            &&& begun.copied <==> always_copy && !redundant
            &&& guarded.copied <==> (always_copy && !redundant) || !recorded.same_target(now)
            &&& looking.step is LookAtFocus
            &&& guarded.step is Inject <==> recorded.same_target(now)
            &&& !recorded.same_target(now) ==> {
                &&& guarded.step is Copy <==> !(always_copy && !redundant)
                &&& guarded.step is Copy ==> guarded.after_copy().step
                    == (StepView::ClipboardOnly { text, reason: moved_text(recorded, now) })
                &&& !(guarded.step is Copy) ==> guarded.step == (StepView::ClipboardOnly {
                    text,
                    reason: moved_text(recorded, now),
                })
            }
            &&& guarded.text == text && guarded.via == via && guarded.recorded == recorded
        }),
{
}

/// A transcript that is not injected comes with the reason: it names the window
/// that was focused and the one that is.
pub proof fn law_the_reason_names_both_windows(from: FocusView, to: FocusView)
    ensures
        (from matches FocusView::Window { id, app } ==> text::has_prefix(
            moved_text(from, to),
            "focus moved from "@ + app + " to "@,
        )),
        (to matches FocusView::Window { id, app } ==> crate::paths::has_suffix(
            moved_text(from, to),
            " to "@ + app + " during transcription"@,
        )),
{
    if let FocusView::Window { id, app } = from {
        let head = "focus moved from "@ + app + " to "@;
        assert(moved_text(from, to).take(head.len() as int) =~= head);
    }
    if let FocusView::Window { id, app } = to {
        let tail = " to "@ + app + " during transcription"@;
        assert(moved_text(from, to).skip(moved_text(from, to).len() - tail.len()) =~= tail);
    }
}

/// A setting that only a restart applies is named exactly if it changed, and
/// nothing else is.
pub proof fn law_changed_settings_are_named(current: Config, fresh: Config, entry: Seq<char>)
    ensures
        restarts(current, fresh).contains(entry) <==> {
            ||| entry == "engine (restart sttd to apply)"@ && !(fresh.engine.backend
                == current.engine.backend && fresh.engine.model_dir@ == current.engine.model_dir@
                && fresh.engine.execution_provider == current.engine.execution_provider
                && fresh.engine.language@ == current.engine.language@ && fresh.engine.prefer_int8
                == current.engine.prefer_int8)
            ||| entry == "inject.backends (restart sttd to apply)"@ && fresh.inject.backends@
                != current.inject.backends@
            ||| entry == "inject.paste_keys (restart sttd to apply)"@ && fresh.inject.paste_keys@
                != current.inject.paste_keys@
            ||| entry == "inject.restore_clipboard (restart sttd to apply)"@
                && fresh.inject.restore_clipboard != current.inject.restore_clipboard
            ||| entry == "inject.restore_delay_ms (restart sttd to apply)"@
                && fresh.inject.restore_delay_ms != current.inject.restore_delay_ms
        },
{
    let a = unless(fresh.engine.agrees(current.engine), "engine (restart sttd to apply)"@);
    let b = unless(
        fresh.inject.backends@ == current.inject.backends@,
        "inject.backends (restart sttd to apply)"@,
    );
    let c = unless(
        fresh.inject.paste_keys@ == current.inject.paste_keys@,
        "inject.paste_keys (restart sttd to apply)"@,
    );
    let d = unless(
        fresh.inject.restore_clipboard == current.inject.restore_clipboard,
        "inject.restore_clipboard (restart sttd to apply)"@,
    );
    let e = unless(
        fresh.inject.restore_delay_ms == current.inject.restore_delay_ms,
        "inject.restore_delay_ms (restart sttd to apply)"@,
    );
    lemma_in_either(a, b, entry);
    lemma_in_either(a + b, c, entry);
    lemma_in_either(a + b + c, d, entry);
    lemma_in_either(a + b + c + d, e, entry);
    lemma_unless(fresh.engine.agrees(current.engine), "engine (restart sttd to apply)"@, entry);
    lemma_unless(
        fresh.inject.backends@ == current.inject.backends@,
        "inject.backends (restart sttd to apply)"@,
        entry,
    );
    lemma_unless(
        fresh.inject.paste_keys@ == current.inject.paste_keys@,
        "inject.paste_keys (restart sttd to apply)"@,
        entry,
    );
    lemma_unless(
        fresh.inject.restore_clipboard == current.inject.restore_clipboard,
        "inject.restore_clipboard (restart sttd to apply)"@,
        entry,
    );
    lemma_unless(
        fresh.inject.restore_delay_ms == current.inject.restore_delay_ms,
        "inject.restore_delay_ms (restart sttd to apply)"@,
        entry,
    );
}

proof fn lemma_in_either(a: Seq<Seq<char>>, b: Seq<Seq<char>>, x: Seq<char>)
    ensures
        (a + b).contains(x) <==> a.contains(x) || b.contains(x),
{
    if a.contains(x) {
        let i = choose|i: int| 0 <= i < a.len() && a[i] == x;
        assert((a + b)[i] == x);
    }
    if b.contains(x) {
        let i = choose|i: int| 0 <= i < b.len() && b[i] == x;
        assert((a + b)[a.len() + i] == x);
    }
}

proof fn lemma_unless(same: bool, entry: Seq<char>, x: Seq<char>)
    ensures
        unless(same, entry).contains(x) <==> !same && x == entry,
{
    if !same {
        assert(unless(same, entry)[0] == entry);
    }
}

/// An error from outside is repeated at the end of what the daemon says of it.
pub proof fn law_outside_errors_are_repeated(e: String)
    ensures
        crate::paths::has_suffix(SessionError::Microphone(e).text(), e@),
        crate::paths::has_suffix(SessionError::Finishing(e).text(), e@),
        crate::paths::has_suffix(SessionError::Transcribing(e).text(), e@),
        crate::paths::has_suffix(SessionError::Injecting(e).text(), e@),
{
    let (a, b, c, d) = (
        SessionError::Microphone(e).text(),
        SessionError::Finishing(e).text(),
        SessionError::Transcribing(e).text(),
        SessionError::Injecting(e).text(),
    );
    assert(a.skip(a.len() - e@.len()) =~= e@);
    assert(b.skip(b.len() - e@.len()) =~= e@);
    assert(c.skip(c.len() - e@.len()) =~= e@);
    assert(d.skip(d.len() - e@.len()) =~= e@);
}

/// A window that is not known is told as such.
pub proof fn law_the_reason_without_windows(from: FocusView, to: FocusView)
    ensures
        !(from is Window) ==> text::has_prefix(moved_text(from, to), "focus moved from ? to "@),
        !(to is Window) ==> crate::paths::has_suffix(
            moved_text(from, to),
            " to nothing during transcription"@,
        ),
{
    reveal_strlit("focus moved from ");
    reveal_strlit("?");
    reveal_strlit(" to ");
    reveal_strlit("focus moved from ? to ");
    reveal_strlit("nothing");
    reveal_strlit(" during transcription");
    reveal_strlit(" to nothing during transcription");
    let t = moved_text(from, to);
    if !(from is Window) {
        let head = "focus moved from ? to "@;
        assert(head =~= "focus moved from "@ + "?"@ + " to "@);
        assert(t.take(head.len() as int) =~= head);
    }
    if !(to is Window) {
        let tail = " to nothing during transcription"@;
        assert(tail =~= " to "@ + "nothing"@ + " during transcription"@);
        assert(t.skip(t.len() - tail.len()) =~= tail);
    }
}

/// Whether the overlay's meter gets the current level.
pub open spec fn meters(v: SessionView) -> bool {
    v.overlay && v.state is Recording
}

/// Whether what was captured so far is transcribed and shown.
pub open spec fn previews(v: SessionView, captured: int, silent: bool, engine_free: bool) -> bool {
    &&& v.overlay && v.state is Recording
    &&& PREVIEW_MIN_SAMPLES <= captured <= PREVIEW_MAX_SAMPLES
    &&& !silent && engine_free
}

/// What becomes of finished audio.
pub open spec fn finish_of(samples: int, silent: bool) -> FinishStep {
    if samples == 0 || silent {
        FinishStep::NoSpeech
    } else {
        FinishStep::Transcribe
    }
}

/// Only a recording is metered and previewed, and only where there is an
/// overlay to show it; a preview needs at least eight tenths of a second and at
/// most 45 seconds, needs sound, and never waits for the engine.
pub proof fn law_when_a_recording_is_previewed(
    v: SessionView,
    captured: int,
    silent: bool,
    engine_free: bool,
)
    ensures
        meters(v) <==> v.overlay && v.state is Recording,
        previews(v, captured, silent, engine_free) <==> meters(v) && !silent && engine_free
            && captured * 10 >= 8 * 16_000 && captured <= 45 * 16_000,
{
}

/// Audio is transcribed exactly if there is some and it is not silent.
pub proof fn law_silence_is_not_transcribed(samples: int, silent: bool)
    ensures
        finish_of(samples, silent) is Transcribe <==> samples != 0 && !silent,
        finish_of(samples, silent) is NoSpeech <==> samples == 0 || silent,
{
}

/// A delivery that was injected reports its own text and the injector that it
/// went through.
pub proof fn law_injected_text_is_reported(d: DeliveryView)
    ensures
        d.after_injection().step == (StepView::Injected { text: d.text, via: d.via }),
        d.after_injection().text == d.text,
        d.after_injection().via == d.via,
        d.after_injection().copied == d.copied,
        d.after_injection().recorded == d.recorded,
{
}

} // verus!
