//! The dictation daemon: how requests are answered, and what its background
//! threads decide.
//!
//! The daemon exists for one reason: the model takes seconds to load, so it is
//! loaded once and kept resident.

use vstd::prelude::*;
use crate::config::{Config, ConfigError, OverlayConfig};
use crate::inject::focus::Focus;
use crate::ipc::{DaemonState, Request, Response, StatusReport};
use crate::overlay::{Cmd, OverlayAnchor};
use crate::session::{
    Session, SessionError, SessionView, StartStep, Stopped, ToggleStep, elapsed, is_start, is_stop,
    restarts,
};
use crate::text;

verus! {

/// Pause between levels for the overlay, in milliseconds: fast enough that the
/// meter tracks speech, slow enough to be free.
pub const PUMP_MS: u64 = 33;

/// Pause between previews, in milliseconds. It is measured *between* passes,
/// so as the buffer grows and each pass takes longer the previews space
/// themselves out instead of piling up.
pub const PREVIEW_MS: u64 = 1200;

/// Pause while waiting for a recording to preview, in milliseconds.
pub const PREVIEW_IDLE_MS: u64 = 100;

/// Pause between looks at the length of a recording, in milliseconds.
pub const GUARD_MS: u64 = 500;

/// What to do about a request.
#[derive(Debug, Clone, PartialEq, Eq)]
pub enum Action {
    /// Answer this.
    Reply(Response),
    /// Open this microphone and answer what [`Daemon::opened`] says.
    OpenMicrophone { device: String },
    /// Answer [`Response::Done`], and transcribe in the background: a
    /// compositor keybind must not block for the length of an inference.
    Transcribe(Stopped),
    /// Drop the recording, tell the overlay this, and answer
    /// [`Response::Done`].
    Drop { overlay: Option<Cmd> },
    /// Read the configuration and answer what [`Daemon::reloaded`] says.
    ReadConfig,
}

/// Whether `r` refuses a request for this reason.
pub open spec fn refuses(r: Response, e: SessionError) -> bool {
    r matches Response::Error { message } && message@ == e.text()
}

/// Whether `a` does what a start asks for.
pub open spec fn is_start_action(a: Action, v: SessionView) -> bool {
    match v.state {
        DaemonState::Recording => a == Action::Reply(Response::Done),
        DaemonState::Ready => a matches Action::OpenMicrophone { device } && device@
            == v.config.audio.device@,
        DaemonState::Loading => a matches Action::Reply(r) && refuses(r, SessionError::Loading),
        _ => a matches Action::Reply(r) && refuses(r, SessionError::Busy),
    }
}

/// Whether `a` does what a stop asks for.
pub open spec fn is_stop_action(a: Action, v: SessionView) -> bool {
    if v.state is Recording {
        a matches Action::Transcribe(s) && is_stop(Ok(s), v)
    } else {
        a matches Action::Reply(r) && refuses(r, SessionError::NotRecording)
    }
}

/// Whether `report` describes this session.
pub open spec fn is_status(
    report: StatusReport,
    v: SessionView,
    engine: Seq<char>,
    version: Seq<char>,
    now_ms: u64,
) -> bool {
    &&& report.state == v.state
    &&& report.engine@ == engine
    &&& report.injector matches Some(i) && i@ == v.injector
    &&& report.version@ == version
    &&& match v.active {
        Some(a) => report.recording_ms matches Some(ms) && ms == elapsed(a.started_ms, now_ms),
        None => report.recording_ms is None,
    }
}

/// The session after a request was taken.
pub open spec fn after_request(v: SessionView, request: Request) -> SessionView {
    match request {
        Request::Stop => if v.state is Recording {
            v.stopped()
        } else {
            v
        },
        Request::Toggle => if v.state is Recording {
            v.stopped()
        } else {
            v
        },
        Request::Cancel => if v.cancellable() {
            v.idle_in(DaemonState::Ready)
        } else {
            v
        },
        _ => v,
    }
}

/// The daemon: a session, and whether it is to exit.
pub struct Daemon {
    pub session: Session,
    pub shutdown: bool,
}

impl Daemon {
    /// A daemon around a session.
    pub fn new(session: Session) -> (r: Self)
        ensures
            r.session == session,
            !r.shutdown,
    {
        Daemon { session, shutdown: false }
    }

    /// Ask the accept loop to stop. Whoever asks must also connect once, since
    /// the loop is parked and will not look until a connection arrives.
    pub fn request_shutdown(&mut self)
        ensures
            final(self).shutdown,
            final(self).session == old(self).session,
    {
        self.shutdown = true;
    }

    pub fn is_shutting_down(&self) -> (r: bool)
        ensures
            r == self.shutdown,
    {
        self.shutdown
    }

    /// What the daemon says of itself.
    pub fn status(&self, engine: &str, version: &str, now_ms: u64) -> (r: StatusReport)
        requires
            self.session@.inv(),
        ensures
            is_status(r, self.session@, engine@, version@, now_ms),
    {
        StatusReport {
            state: self.session.state(),
            engine: engine.to_owned(),
            injector: Some(self.session.injector_name().to_owned()),
            version: version.to_owned(),
            recording_ms: self.session.recording_ms(now_ms),
        }
    }

    fn refuse(e: &SessionError) -> (r: Response)
        ensures
            refuses(r, *e),
    {
        Response::Error { message: e.message() }
    }

    fn start_action(step: Result<StartStep, SessionError>) -> (r: Action)
        ensures
            forall|v: SessionView| #[trigger] is_start(step, v) ==> is_start_action(r, v),
    {
        match step {
            Ok(StartStep::AlreadyRecording) => Action::Reply(Response::Done),
            Ok(StartStep::OpenMicrophone { device }) => Action::OpenMicrophone { device },
            Err(e) => Action::Reply(Self::refuse(&e)),
        }
    }

    /// Decides what to do about a request.
    pub fn handle(&mut self, request: Request, engine: &str, version: &str, now_ms: u64) -> (r:
        Action)
        requires
            old(self).session@.inv(),
        ensures
            final(self).session@.inv(),
            final(self).session@ == after_request(old(self).session@, request),
            final(self).shutdown == (old(self).shutdown || request is Shutdown),
            match request {
                Request::Status => r matches Action::Reply(Response::Status(s)) && is_status(
                    s,
                    old(self).session@,
                    engine@,
                    version@,
                    now_ms,
                ),
                Request::Shutdown => r == Action::Reply(Response::Done),
                Request::Start => is_start_action(r, old(self).session@),
                Request::Stop => is_stop_action(r, old(self).session@),
                Request::Toggle => if old(self).session@.state is Recording {
                    is_stop_action(r, old(self).session@)
                } else {
                    is_start_action(r, old(self).session@)
                },
                Request::Cancel => if old(self).session@.cancellable() {
                    r == (Action::Drop {
                        overlay: if old(self).session@.overlay {
                            Some(Cmd::Hide)
                        } else {
                            None
                        },
                    })
                } else {
                    r matches Action::Reply(reply) && refuses(reply, SessionError::NothingToCancel)
                },
                Request::Reload => r is ReadConfig,
            },
    {
        match request {
            Request::Status => Action::Reply(
                Response::Status(self.status(engine, version, now_ms)),
            ),
            Request::Shutdown => {
                self.shutdown = true;
                Action::Reply(Response::Done)
            },
            Request::Start => {
                let step = self.session.start();
                assert(is_start(step, self.session@));
                Self::start_action(step)
            },
            Request::Stop => match self.session.stop() {
                Ok(stopped) => Action::Transcribe(stopped),
                Err(e) => Action::Reply(Self::refuse(&e)),
            },
            Request::Toggle => match self.session.toggle() {
                Ok(ToggleStep::Stop(stopped)) => Action::Transcribe(stopped),
                Ok(ToggleStep::Start(step)) => {
                    assert(is_start(Ok(step), self.session@));
                    Self::start_action(Ok(step))
                },
                Err(e) => {
                    assert(is_start(Err(e), self.session@));
                    Self::start_action(Err(e))
                },
            },
            Request::Cancel => match self.session.cancel() {
                Ok((_, overlay)) => Action::Drop { overlay },
                Err(e) => Action::Reply(Self::refuse(&e)),
            },
            Request::Reload => Action::ReadConfig,
        }
    }

    /// A microphone was opened, with this focus just after, or could not be.
    pub fn opened(&mut self, result: Result<Focus, String>, now_ms: u64) -> (r: (
        Response,
        Option<Cmd>,
    ))
        requires
            old(self).session@.inv(),
            old(self).session@.state is Ready,
        ensures
            final(self).session@.inv(),
            final(self).shutdown == old(self).shutdown,
            match result {
                Ok(focus) => {
                    &&& r.0 is Done
                    &&& r.1 == if old(self).session@.overlay {
                        Some(Cmd::Show)
                    } else {
                        None
                    }
                    &&& final(self).session@ == old(self).session@.started(focus@, now_ms)
                },
                Err(e) => {
                    &&& refuses(r.0, SessionError::Microphone(e))
                    &&& r.1 is None
                    &&& final(self).session@ == old(self).session@
                },
            },
    {
        match result {
            Ok(focus) => {
                let overlay = self.session.recording_started(focus, now_ms);
                (Response::Done, overlay)
            },
            Err(e) => (Self::refuse(&SessionError::Microphone(e)), None),
        }
    }

    /// The configuration was read anew, or could not be.
    pub fn reloaded(&mut self, fresh: Result<Config, ConfigError>) -> (r: Response)
        requires
            old(self).session@.inv(),
        ensures
            final(self).session@.inv(),
            final(self).shutdown == old(self).shutdown,
            match fresh {
                Ok(config) => {
                    let list = restarts(old(self).session@.config, config);
                    &&& if list.len() == 0 {
                        r is Done
                    } else {
                        r matches Response::Error { message } && message@
                            == "reloaded, but these need a restart: "@ + text::joined(list, ", "@)
                    }
                    &&& final(self).session@ == (SessionView { config, ..old(self).session@ })
                },
                Err(e) => {
                    &&& r matches Response::Error { message } && message@ == e.text()
                    &&& final(self).session@ == old(self).session@
                },
            },
    {
        match self.session.reload(fresh) {
            Ok(list) => {
                assert(text::views(list@).len() == list@.len());
                if list.len() == 0 {
                    Response::Done
                } else {
                    let mut message = "reloaded, but these need a restart: ".to_owned();
                    message.append(text::join(&list, ", ").as_str());
                    Response::Error { message }
                }
            },
            Err(e) => Response::Error { message: e.message() },
        }
    }

    // ------------------------------------------------------------ threads

    /// How long the preview thread sleeps, in milliseconds.
    pub fn preview_pause_ms(&self) -> (r: u64)
        ensures
            r == pause_of(self.session@),
    {
        if self.session.is_recording() {
            PREVIEW_MS
        } else {
            PREVIEW_IDLE_MS
        }
    }
}

/// What to say when a line is not a request.
pub fn malformed(error: &str) -> (r: Response)
    ensures
        r matches Response::Error { message } && message@ == "malformed request: "@ + error@,
{
    let mut message = "malformed request: ".to_owned();
    message.append(error);
    Response::Error { message }
}

/// Where to start the overlay, if the user wants one.
pub fn wanted_overlay(config: &OverlayConfig) -> (r: Option<OverlayAnchor>)
    ensures
        match r {
            Some(a) => config.enabled && (config.anchor is Top <==> a is Top) && (
            config.anchor is Bottom <==> a is Bottom) && (config.anchor is Center
                <==> a is Center),
            None => !config.enabled,
        },
{
    if config.enabled {
        Some(OverlayAnchor::from_config(config.anchor))
    } else {
        None
    }
}

// ---------------------------------------------------------------- the socket

/// What to do with the place where the control socket should be.
#[derive(Debug, Clone, PartialEq, Eq)]
pub enum BindStep {
    /// Bind there.
    Bind,
    /// Remove the file, then bind.
    RemoveStale,
    /// Leave it to the daemon that has it; carries the error.
    Refuse { message: String },
}

/// Decides about the control socket's place.
///
/// Unix sockets are not cleaned up when a process dies, so a leftover file is
/// the normal case after a crash; but it must be told from a second daemon
/// that is genuinely running, whose socket would silently be stolen.
pub fn bind_step(path: &str, taken: bool, answers: bool) -> (r: BindStep)
    ensures
        is_bind_step(r, path@, taken, answers),
{
    if !taken {
        BindStep::Bind
    } else if answers {
        let mut message = "another sttd is already listening on ".to_owned();
        message.append(path);
        BindStep::Refuse { message }
    } else {
        BindStep::RemoveStale
    }
}

/// The permissions of the control socket. It accepts commands that synthesize
/// keystrokes, so it is kept owner-only even in a permissive directory.
pub const SOCKET_MODE: u32 = 0o600;

// ---------------------------------------------------------------- laws

/// A request never leaves the daemon with a lost or a second recording.
pub proof fn law_requests_keep_the_invariant(v: SessionView, request: Request)
    requires
        v.inv(),
    ensures
        after_request(v, request).inv(),
{
}

/// Asking for the status changes nothing, and neither does a start that is
/// refused or ignored.
pub proof fn law_status_and_start_only_look(v: SessionView)
    ensures
        after_request(v, Request::Status) == v,
        after_request(v, Request::Start) == v,
        after_request(v, Request::Reload) == v,
        after_request(v, Request::Shutdown) == v,
{
}

/// A request does to the session what its event does: a toggle stops a
/// recording as a stop does, a cancellation drops what is being recorded or
/// transcribed, and nothing else is touched.
pub proof fn law_requests_are_events(v: SessionView)
    ensures
        after_request(v, Request::Stop) == crate::session::after(v, crate::session::Event::Stop),
        after_request(v, Request::Toggle) == crate::session::after(v, crate::session::Event::Stop),
        after_request(v, Request::Cancel) == crate::session::after(v, crate::session::Event::Cancel),
        v.state is Recording ==> after_request(v, Request::Toggle).state is Transcribing
            && after_request(v, Request::Stop).state is Transcribing,
        v.state is Recording || v.state is Transcribing ==> after_request(
            v,
            Request::Cancel,
        ).state is Ready,
        forall|r: Request| #[trigger] after_request(v, r).dictation == v.dictation,
        forall|r: Request| #[trigger] after_request(v, r).config == v.config,
{
}

/// The microphone is opened exactly if the daemon is ready, and it is the
/// configured one; a recording that runs already is answered as done; and
/// otherwise the reason is named.
pub proof fn law_what_a_start_does(a: Action, v: SessionView)
    requires
        is_start_action(a, v),
    ensures
        a is OpenMicrophone <==> v.state is Ready,
        a matches Action::OpenMicrophone { device } ==> device@ == v.config.audio.device@,
        v.state is Recording ==> a == Action::Reply(Response::Done),
        v.state is Loading ==> (a matches Action::Reply(Response::Error { message }) && message@
            == SessionError::Loading.text()),
        v.state is Transcribing || v.state is Injecting ==> (a matches Action::Reply(
            Response::Error { message },
        ) && message@ == SessionError::Busy.text()),
{
}

/// A stop hands the recording to the recognizer exactly if there is one.
pub proof fn law_what_a_stop_does(a: Action, v: SessionView)
    requires
        is_stop_action(a, v),
    ensures
        a is Transcribe <==> v.state is Recording,
        a matches Action::Transcribe(s) ==> Some(s.active@) == v.active && s.dictation
            == v.dictation,
        !(v.state is Recording) ==> (a matches Action::Reply(Response::Error { message })
            && message@ == SessionError::NotRecording.text()),
{
}

/// A status says how long the recording has lasted exactly if there is one.
pub proof fn law_status_tells_the_time(
    report: StatusReport,
    v: SessionView,
    engine: Seq<char>,
    version: Seq<char>,
    now_ms: u64,
)
    requires
        is_status(report, v, engine, version, now_ms),
    ensures
        report.state == v.state,
        report.recording_ms is Some <==> v.active is Some,
        report.recording_ms matches Some(ms) ==> (now_ms >= (v.active->0).started_ms ==> (
        v.active->0).started_ms + ms == now_ms) && (now_ms < (v.active->0).started_ms ==> ms == 0),
        report.injector is Some && report.injector->0@ == v.injector,
        report.engine@ == engine && report.version@ == version,
{
}

/// How long the preview thread sleeps, in milliseconds.
pub open spec fn pause_of(v: SessionView) -> u64 {
    if v.state is Recording {
        PREVIEW_MS
    } else {
        PREVIEW_IDLE_MS
    }
}

/// What to do about the place of the socket.
pub open spec fn is_bind_step(r: BindStep, path: Seq<char>, taken: bool, answers: bool) -> bool {
    if !taken {
        r is Bind
    } else if answers {
        r matches BindStep::Refuse { message } && message@
            == "another sttd is already listening on "@ + path
    } else {
        r is RemoveStale
    }
}

/// A socket on which a daemon answers is left alone, and named; one that is
/// left over is removed; and a free place is taken.
pub proof fn law_one_daemon_for_a_socket(r: BindStep, path: Seq<char>, taken: bool, answers: bool)
    requires
        is_bind_step(r, path, taken, answers),
    ensures
        r is Refuse <==> taken && answers,
        r is RemoveStale <==> taken && !answers,
        r is Bind <==> !taken,
        r matches BindStep::Refuse { message } ==> crate::paths::has_suffix(message@, path),
{
    if let BindStep::Refuse { message } = r {
        assert(message@.skip(message@.len() - path.len()) =~= path);
    }
}

/// Previews are far apart, and a recording is noticed soon.
pub proof fn law_previews_are_paced(v: SessionView)
    ensures
        v.state is Recording ==> pause_of(v) == 1200,
        !(v.state is Recording) ==> pause_of(v) == 100,
{
}

} // verus!
