//! Wire protocol for the daemon's control socket.
//!
//! Newline-delimited JSON in both directions: one [`Request`] per line, one
//! [`Response`] per line. Line-delimited JSON keeps the client trivial (write a
//! line, read a line) and stays debuggable with `socat`.

use vstd::prelude::*;
use crate::text;

verus! {

/// Commands the client and activation backends send to the daemon.
#[derive(Debug, Clone, Copy, PartialEq, Eq, Structural)]
pub enum Request {
    /// Begin recording. A no-op if already recording, so a repeated key-down
    /// from a stuck compositor bind cannot open a second stream.
    Start,
    /// Stop recording and transcribe.
    Stop,
    /// Start if idle, stop if recording.
    Toggle,
    /// Abandon the current recording or transcription; inject nothing.
    Cancel,
    /// Query daemon state.
    Status,
    /// Re-read the config file without restarting. Engine changes still need a
    /// restart; this is reported back in the response.
    Reload,
    /// Ask the daemon to exit cleanly.
    Shutdown,
}

/// What the daemon is currently doing.
#[derive(Debug, Clone, Copy, PartialEq, Eq, Structural)]
pub enum DaemonState {
    /// Model is still loading.
    Loading,
    Ready,
    Recording,
    Transcribing,
    Injecting,
}

impl DaemonState {
    /// The state's name on the wire and in status output.
    pub open spec fn name(self) -> Seq<char> {
        match self {
            DaemonState::Loading => "loading"@,
            DaemonState::Ready => "ready"@,
            DaemonState::Recording => "recording"@,
            DaemonState::Transcribing => "transcribing"@,
            DaemonState::Injecting => "injecting"@,
        }
    }

    /// The state's name on the wire and in status output.
    pub fn as_str(self) -> (r: &'static str)
        ensures
            r@ == self.name(),
    {
        match self {
            DaemonState::Loading => "loading",
            DaemonState::Ready => "ready",
            DaemonState::Recording => "recording",
            DaemonState::Transcribing => "transcribing",
            DaemonState::Injecting => "injecting",
        }
    }
}

/// What the daemon answers.
#[derive(Debug, Clone, PartialEq, Eq)]
pub enum Response {
    Done,
    Status(StatusReport),
    Error { message: String },
}

/// What the daemon says of itself.
#[derive(Debug, Clone, PartialEq, Eq)]
pub struct StatusReport {
    pub state: DaemonState,
    pub engine: String,
    /// Selected injector, or `None` while still probing.
    pub injector: Option<String>,
    pub version: String,
    /// Length of the in-progress recording, if any.
    pub recording_ms: Option<u64>,
}

// ---------------------------------------------------------------- encoding

/// A hexadecimal digit.
pub open spec fn hex_digit(d: int) -> char {
    if d < 10 {
        text::digit(d as nat)
    } else if d == 10 {
        'a'
    } else if d == 11 {
        'b'
    } else if d == 12 {
        'c'
    } else if d == 13 {
        'd'
    } else if d == 14 {
        'e'
    } else {
        'f'
    }
}

/// A character in a JSON string: quotes, backslashes and control characters
/// are escaped.
pub open spec fn escape(c: char) -> Seq<char> {
    if c == '"' || c == '\\' {
        seq!['\\', c]
    } else if c == '\u{8}' {
        seq!['\\', 'b']
    } else if c == '\t' {
        seq!['\\', 't']
    } else if c == '\n' {
        seq!['\\', 'n']
    } else if c == '\u{c}' {
        seq!['\\', 'f']
    } else if c == '\r' {
        seq!['\\', 'r']
    } else if c <= '\u{1f}' {
        seq!['\\', 'u', '0', '0', hex_digit(c as int / 16), hex_digit(c as int % 16)]
    } else {
        seq![c]
    }
}

/// The characters of a JSON string.
pub open spec fn escaped(s: Seq<char>) -> Seq<char>
    decreases s.len(),
{
    if s.len() == 0 {
        Seq::empty()
    } else {
        escape(s[0]) + escaped(s.drop_first())
    }
}

/// A string as JSON writes it: in quotes, with escapes.
pub open spec fn json_quoted(s: Seq<char>) -> Seq<char> {
    seq!['"'] + escaped(s) + seq!['"']
}

/// `serde_json::Value`'s text for a string: it stands in quotes, and each
/// character is escaped where it has to be, and no other.
#[verifier::external_body]
fn json_string(s: &str) -> (r: String)
    ensures
        r@ == json_quoted(s@),
{
    serde_json::Value::from(s).to_string()
}

/// Whether a text holds no line break.
pub open spec fn one_line(s: Seq<char>) -> bool {
    forall|i: int| 0 <= i < s.len() ==> #[trigger] s[i] != '\n'
}

/// The name of a command on the wire.
pub open spec fn command_name(request: Request) -> Seq<char> {
    match request {
        Request::Start => "start"@,
        Request::Stop => "stop"@,
        Request::Toggle => "toggle"@,
        Request::Cancel => "cancel"@,
        Request::Status => "status"@,
        Request::Reload => "reload"@,
        Request::Shutdown => "shutdown"@,
    }
}

/// A request as JSON.
pub open spec fn request_json(request: Request) -> Seq<char> {
    "{\"cmd\":\""@ + command_name(request) + "\"}"@
}

/// An optional string as JSON.
pub open spec fn opt_string_json(s: Option<String>) -> Seq<char> {
    match s {
        Some(t) => json_quoted(t@),
        None => "null"@,
    }
}

/// An optional number as JSON.
pub open spec fn opt_number_json(n: Option<u64>) -> Seq<char> {
    match n {
        Some(k) => text::decimal(k as nat),
        None => "null"@,
    }
}

/// A status as JSON, from the recording's length on.
pub open spec fn status_end(s: StatusReport) -> Seq<char> {
    ",\"recording_ms\":"@ + (opt_number_json(s.recording_ms) + "}"@)
}

/// A status as JSON, from the injector on.
pub open spec fn status_rest(s: StatusReport) -> Seq<char> {
    ",\"injector\":"@ + (opt_string_json(s.injector) + (",\"version\":"@ + (json_quoted(s.version@)
        + status_end(s))))
}

/// A response as JSON.
pub open spec fn response_json(response: Response) -> Seq<char> {
    match response {
        Response::Done => "{\"reply\":\"ok\"}"@,
        Response::Error { message } => "{\"reply\":\"error\",\"message\":"@ + (json_quoted(
            message@,
        ) + "}"@),
        Response::Status(s) => "{\"reply\":\"status\",\"state\":\""@ + (s.state.name()
            + ("\",\"engine\":"@ + (json_quoted(s.engine@) + status_rest(s)))),
    }
}

impl Request {
    /// This request as JSON.
    pub fn to_json(self) -> (r: String)
        ensures
            r@ == request_json(self),
    {
        let mut s = "{\"cmd\":\"".to_owned();
        s.append(
            match self {
                Request::Start => "start",
                Request::Stop => "stop",
                Request::Toggle => "toggle",
                Request::Cancel => "cancel",
                Request::Status => "status",
                Request::Reload => "reload",
                Request::Shutdown => "shutdown",
            },
        );
        s.append("\"}");
        s
    }
}

/// `head` followed by `tail`.
fn followed(head: &str, tail: &str) -> (r: String)
    ensures
        r@ == head@ + tail@,
{
    let mut s = head.to_owned();
    s.append(tail);
    s
}

fn write_status_end(status: &StatusReport) -> (r: String)
    ensures
        r@ == status_end(*status),
{
    let length = match status.recording_ms {
        Some(ms) => text::to_decimal(ms),
        None => "null".to_owned(),
    };
    followed(",\"recording_ms\":", followed(length.as_str(), "}").as_str())
}

fn write_status_rest(status: &StatusReport) -> (r: String)
    ensures
        r@ == status_rest(*status),
{
    let version = followed(
        json_string(status.version.as_str()).as_str(),
        write_status_end(status).as_str(),
    );
    let injector = match &status.injector {
        Some(name) => json_string(name.as_str()),
        None => "null".to_owned(),
    };
    followed(
        ",\"injector\":",
        followed(injector.as_str(), followed(",\"version\":", version.as_str()).as_str()).as_str(),
    )
}

impl Response {
    /// This response as JSON.
    pub fn to_json(&self) -> (r: String)
        ensures
            r@ == response_json(*self),
            one_line(r@),
    {
        proof {
            law_responses_are_one_line(*self);
        }
        match self {
            Response::Done => "{\"reply\":\"ok\"}".to_owned(),
            Response::Error { message } => followed(
                "{\"reply\":\"error\",\"message\":",
                followed(json_string(message.as_str()).as_str(), "}").as_str(),
            ),
            Response::Status(status) => {
                let engine = followed(
                    json_string(status.engine.as_str()).as_str(),
                    write_status_rest(status).as_str(),
                );
                let state = followed(
                    status.state.as_str(),
                    followed("\",\"engine\":", engine.as_str()).as_str(),
                );
                followed("{\"reply\":\"status\",\"state\":\"", state.as_str())
            },
        }
    }
}

/// Encode one protocol message, already in JSON, as a single
/// newline-terminated line.
pub fn encode_line(json: &str) -> (r: String)
    ensures
        r@ == json@.push('\n'),
{
    let mut s = json.to_owned();
    s.push('\n');
    s
}

proof fn lemma_quoted_one_line(s: Seq<char>)
    ensures
        one_line(json_quoted(s)),
{
    lemma_escaped_one_line(s);
}

proof fn lemma_escaped_one_line(s: Seq<char>)
    ensures
        one_line(escaped(s)),
    decreases s.len(),
{
    if s.len() > 0 {
        lemma_escaped_one_line(s.drop_first());
        assert(one_line(escape(s[0])));
    }
}

proof fn lemma_decimal_one_line(n: nat)
    ensures
        one_line(text::decimal(n)),
    decreases n,
{
    if n >= 10 {
        lemma_decimal_one_line(n / 10);
    }
}

proof fn lemma_state_one_line(state: DaemonState)
    ensures
        one_line(state.name()),
{
    reveal_strlit("loading");
    reveal_strlit("ready");
    reveal_strlit("recording");
    reveal_strlit("transcribing");
    reveal_strlit("injecting");
}

/// A message without a line break gives a line with exactly one, at its end:
/// framing depends on this, since another would desync the reader.
pub proof fn law_one_newline_per_message(json: Seq<char>)
    requires
        one_line(json),
    ensures
        json.push('\n').last() == '\n',
        one_line(json.push('\n').drop_last()),
        json.push('\n').drop_last() == json,
{
    assert(json.push('\n').drop_last() =~= json);
}

/// A request is always a single line.
pub proof fn law_requests_are_one_line(request: Request)
    ensures
        one_line(request_json(request)),
{
    reveal_strlit("{\"cmd\":\"");
    reveal_strlit("\"}");
    reveal_strlit("start");
    reveal_strlit("stop");
    reveal_strlit("toggle");
    reveal_strlit("cancel");
    reveal_strlit("status");
    reveal_strlit("reload");
    reveal_strlit("shutdown");
}

proof fn lemma_one_line_then(a: Seq<char>, b: Seq<char>)
    requires
        one_line(a),
        one_line(b),
    ensures
        one_line(a + b),
{
}

/// A response is always a single line, whatever its strings hold.
pub proof fn law_responses_are_one_line(response: Response)
    ensures
        one_line(response_json(response)),
{
    reveal_strlit("}");
    match response {
        Response::Done => {
            reveal_strlit("{\"reply\":\"ok\"}");
        },
        Response::Error { message } => {
            reveal_strlit("{\"reply\":\"error\",\"message\":");
            lemma_quoted_one_line(message@);
            lemma_one_line_then(json_quoted(message@), "}"@);
            lemma_one_line_then(
                "{\"reply\":\"error\",\"message\":"@,
                json_quoted(message@) + "}"@,
            );
        },
        Response::Status(s) => {
            reveal_strlit("{\"reply\":\"status\",\"state\":\"");
            reveal_strlit("\",\"engine\":");
            lemma_state_one_line(s.state);
            lemma_quoted_one_line(s.engine@);
            lemma_status_rest_one_line(s);
            let engine = json_quoted(s.engine@) + status_rest(s);
            lemma_one_line_then(json_quoted(s.engine@), status_rest(s));
            lemma_one_line_then("\",\"engine\":"@, engine);
            lemma_one_line_then(s.state.name(), "\",\"engine\":"@ + engine);
            lemma_one_line_then(
                "{\"reply\":\"status\",\"state\":\""@,
                s.state.name() + ("\",\"engine\":"@ + engine),
            );
        },
    }
}

proof fn lemma_status_rest_one_line(s: StatusReport)
    ensures
        one_line(status_rest(s)),
{
    reveal_strlit(",\"injector\":");
    reveal_strlit(",\"version\":");
    reveal_strlit(",\"recording_ms\":");
    reveal_strlit("null");
    reveal_strlit("}");
    match s.recording_ms {
        Some(ms) => lemma_decimal_one_line(ms as nat),
        None => {},
    }
    match s.injector {
        Some(name) => lemma_quoted_one_line(name@),
        None => {},
    }
    lemma_quoted_one_line(s.version@);
    lemma_one_line_then(opt_number_json(s.recording_ms), "}"@);
    lemma_one_line_then(",\"recording_ms\":"@, opt_number_json(s.recording_ms) + "}"@);
    let version = json_quoted(s.version@) + status_end(s);
    lemma_one_line_then(json_quoted(s.version@), status_end(s));
    lemma_one_line_then(",\"version\":"@, version);
    let injector = opt_string_json(s.injector) + (",\"version\":"@ + version);
    lemma_one_line_then(opt_string_json(s.injector), ",\"version\":"@ + version);
    lemma_one_line_then(",\"injector\":"@, injector);
}

/// Different requests are different on the wire.
pub proof fn law_requests_are_distinct(a: Request, b: Request)
    ensures
        request_json(a) == request_json(b) ==> a == b,
{
    reveal_strlit("{\"cmd\":\"");
    reveal_strlit("\"}");
    reveal_strlit("start");
    reveal_strlit("stop");
    reveal_strlit("toggle");
    reveal_strlit("cancel");
    reveal_strlit("status");
    reveal_strlit("reload");
    reveal_strlit("shutdown");
    if request_json(a) == request_json(b) {
        let ja = request_json(a);
        let jb = request_json(b);
        assert(ja.subrange(8, ja.len() - 2) =~= command_name(a));
        assert(jb.subrange(8, jb.len() - 2) =~= command_name(b));
        assert(command_name(a) == command_name(b));
        assert(command_name(a)[0] == command_name(b)[0]);
        assert(command_name(a)[2] == command_name(b)[2]);
        assert(command_name(a).len() == command_name(b).len());
    }
}

/// What a character was can be seen from its escape, whatever follows it.
proof fn lemma_escape_is_readable(c: char, d: char, x: Seq<char>, y: Seq<char>)
    requires
        escape(c) + x == escape(d) + y,
    ensures
        c == d,
        x == y,
{
    let a = escape(c) + x;
    let b = escape(d) + y;
    assert(a[0] == escape(c)[0] && b[0] == escape(d)[0]);
    if a[0] == '\\' {
        assert(escape(c).len() > 1 && escape(d).len() > 1);
        assert(a[1] == escape(c)[1] && b[1] == escape(d)[1]);
        if a[1] == 'u' {
            assert(a[4] == escape(c)[4] && b[4] == escape(d)[4]);
            assert(a[5] == escape(c)[5] && b[5] == escape(d)[5]);
            assert(c as int / 16 == d as int / 16);
            assert(c as int % 16 == d as int % 16);
        }
    }
    assert(c == d);
    assert(a.skip(escape(c).len() as int) =~= x);
    assert(b.skip(escape(c).len() as int) =~= y);
}

/// A string ends at its closing quote, and what it was can be seen from what
/// was written.
proof fn lemma_escaped_is_readable(s: Seq<char>, t: Seq<char>, x: Seq<char>, y: Seq<char>)
    requires
        escaped(s) + (seq!['"'] + x) == escaped(t) + (seq!['"'] + y),
    ensures
        s == t,
        x == y,
    decreases s.len(),
{
    let a = escaped(s) + (seq!['"'] + x);
    let b = escaped(t) + (seq!['"'] + y);
    if s.len() > 0 && t.len() > 0 {
        let u = escaped(s.drop_first()) + (seq!['"'] + x);
        let v = escaped(t.drop_first()) + (seq!['"'] + y);
        assert(a =~= escape(s[0]) + u);
        assert(b =~= escape(t[0]) + v);
        lemma_escape_is_readable(s[0], t[0], u, v);
        lemma_escaped_is_readable(s.drop_first(), t.drop_first(), x, y);
        assert(s =~= seq![s[0]] + s.drop_first());
        assert(t =~= seq![t[0]] + t.drop_first());
    } else if s.len() > 0 {
        assert(a[0] == escape(s[0])[0]);
        assert(b[0] == '"');
    } else if t.len() > 0 {
        assert(b[0] == escape(t[0])[0]);
        assert(a[0] == '"');
    } else {
        assert(s =~= t);
        assert(a.skip(1) =~= x);
        assert(b.skip(1) =~= y);
    }
}

proof fn lemma_quoted_is_readable(s: Seq<char>, t: Seq<char>, x: Seq<char>, y: Seq<char>)
    requires
        json_quoted(s) + x == json_quoted(t) + y,
    ensures
        s == t,
        x == y,
{
    let a = json_quoted(s) + x;
    let b = json_quoted(t) + y;
    assert(a.skip(1) =~= escaped(s) + (seq!['"'] + x));
    assert(b.skip(1) =~= escaped(t) + (seq!['"'] + y));
    lemma_escaped_is_readable(s, t, x, y);
}

/// What stands behind the same beginning is the same.
proof fn lemma_same_rest(p: Seq<char>, x: Seq<char>, y: Seq<char>)
    requires
        p + x == p + y,
    ensures
        x == y,
{
    assert((p + x).skip(p.len() as int) =~= x);
    assert((p + y).skip(p.len() as int) =~= y);
}

proof fn lemma_state_is_readable(a: DaemonState, b: DaemonState, x: Seq<char>, y: Seq<char>)
    requires
        a.name() + x == b.name() + y,
    ensures
        a == b,
        x == y,
{
    reveal_strlit("loading");
    reveal_strlit("ready");
    reveal_strlit("recording");
    reveal_strlit("transcribing");
    reveal_strlit("injecting");
    let s = a.name() + x;
    let t = b.name() + y;
    assert(s[0] == a.name()[0] && t[0] == b.name()[0]);
    assert(s[2] == a.name()[2] && t[2] == b.name()[2]);
    assert(a == b);
    lemma_same_rest(a.name(), x, y);
}

proof fn lemma_opt_string_is_readable(
    a: Option<String>,
    b: Option<String>,
    x: Seq<char>,
    y: Seq<char>,
)
    requires
        opt_string_json(a) + x == opt_string_json(b) + y,
    ensures
        text::opt_view(a) == text::opt_view(b),
        x == y,
{
    reveal_strlit("null");
    let s = opt_string_json(a) + x;
    let t = opt_string_json(b) + y;
    assert(s[0] == opt_string_json(a)[0] && t[0] == opt_string_json(b)[0]);
    match (a, b) {
        (Some(p), Some(q)) => lemma_quoted_is_readable(p@, q@, x, y),
        (None, None) => lemma_same_rest("null"@, x, y),
        _ => {},
    }
}

proof fn lemma_decimal_is_readable(m: nat, n: nat)
    requires
        text::decimal(m) == text::decimal(n),
    ensures
        m == n,
    decreases m,
{
    let a = text::decimal(m);
    let b = text::decimal(n);
    assert(a.last() == text::digit(m % 10));
    assert(b.last() == text::digit(n % 10));
    lemma_decimal_len(m);
    lemma_decimal_len(n);
    if m >= 10 && n >= 10 {
        assert(a.drop_last() =~= text::decimal(m / 10));
        assert(b.drop_last() =~= text::decimal(n / 10));
        lemma_decimal_is_readable(m / 10, n / 10);
    }
}

proof fn lemma_decimal_len(n: nat)
    ensures
        text::decimal(n).len() >= 1,
        n >= 10 ==> text::decimal(n).len() >= 2,
        '0' <= text::decimal(n)[0] <= '9',
    decreases n,
{
    if n >= 10 {
        lemma_decimal_len(n / 10);
    }
}

proof fn lemma_opt_number_is_readable(a: Option<u64>, b: Option<u64>, x: Seq<char>)
    requires
        opt_number_json(a) + x == opt_number_json(b) + x,
    ensures
        a == b,
{
    reveal_strlit("null");
    let s = opt_number_json(a);
    let t = opt_number_json(b);
    assert((s + x).len() == s.len() + x.len() && (t + x).len() == t.len() + x.len());
    assert((s + x).take(s.len() as int) =~= s);
    assert((t + x).take(s.len() as int) =~= t);
    if let Some(m) = a {
        lemma_decimal_len(m as nat);
        if let Some(n) = b {
            lemma_decimal_is_readable(m as nat, n as nat);
        }
    }
    if let Some(n) = b {
        lemma_decimal_len(n as nat);
    }
}

/// Whether two responses say the same.
pub open spec fn same_response(a: Response, b: Response) -> bool {
    match (a, b) {
        (Response::Done, Response::Done) => true,
        (Response::Error { message: m }, Response::Error { message: n }) => m@ == n@,
        (Response::Status(s), Response::Status(t)) => {
            &&& s.state == t.state
            &&& s.engine@ == t.engine@
            &&& text::opt_view(s.injector) == text::opt_view(t.injector)
            &&& s.version@ == t.version@
            &&& s.recording_ms == t.recording_ms
        },
        _ => false,
    }
}

/// Different responses are different on the wire, whatever their strings hold:
/// what was said can be seen from what was written.
pub proof fn law_responses_are_distinct(a: Response, b: Response)
    ensures
        response_json(a) == response_json(b) ==> same_response(a, b),
{
    reveal_strlit("{\"reply\":\"ok\"}");
    reveal_strlit("{\"reply\":\"error\",\"message\":");
    reveal_strlit("{\"reply\":\"status\",\"state\":\"");
    if response_json(a) == response_json(b) {
        let x = response_json(a);
        let y = response_json(b);
        assert(x[10] == y[10]);
        match (a, b) {
            (Response::Done, Response::Done) => {},
            (Response::Error { message: m }, Response::Error { message: n }) => {
                lemma_same_rest(
                    "{\"reply\":\"error\",\"message\":"@,
                    json_quoted(m@) + "}"@,
                    json_quoted(n@) + "}"@,
                );
                lemma_quoted_is_readable(m@, n@, "}"@, "}"@);
            },
            (Response::Status(s), Response::Status(t)) => lemma_statuses_are_distinct(s, t),
            _ => {
                assert(x[10] == match a {
                    Response::Done => 'o',
                    Response::Error { .. } => 'e',
                    Response::Status(_) => 's',
                });
                assert(y[10] == match b {
                    Response::Done => 'o',
                    Response::Error { .. } => 'e',
                    Response::Status(_) => 's',
                });
            },
        }
    }
}

proof fn lemma_statuses_are_distinct(s: StatusReport, t: StatusReport)
    requires
        response_json(Response::Status(s)) == response_json(Response::Status(t)),
    ensures
        same_response(Response::Status(s), Response::Status(t)),
{
    let engine_s = json_quoted(s.engine@) + status_rest(s);
    let engine_t = json_quoted(t.engine@) + status_rest(t);
    let after_s = "\",\"engine\":"@ + engine_s;
    let after_t = "\",\"engine\":"@ + engine_t;
    lemma_same_rest(
        "{\"reply\":\"status\",\"state\":\""@,
        s.state.name() + after_s,
        t.state.name() + after_t,
    );
    lemma_state_is_readable(s.state, t.state, after_s, after_t);
    lemma_same_rest("\",\"engine\":"@, engine_s, engine_t);
    lemma_quoted_is_readable(s.engine@, t.engine@, status_rest(s), status_rest(t));
    let version_s = json_quoted(s.version@) + status_end(s);
    let version_t = json_quoted(t.version@) + status_end(t);
    let injector_s = ",\"version\":"@ + version_s;
    let injector_t = ",\"version\":"@ + version_t;
    lemma_same_rest(
        ",\"injector\":"@,
        opt_string_json(s.injector) + injector_s,
        opt_string_json(t.injector) + injector_t,
    );
    lemma_opt_string_is_readable(s.injector, t.injector, injector_s, injector_t);
    lemma_same_rest(",\"version\":"@, version_s, version_t);
    lemma_quoted_is_readable(s.version@, t.version@, status_end(s), status_end(t));
    lemma_same_rest(
        ",\"recording_ms\":"@,
        opt_number_json(s.recording_ms) + "}"@,
        opt_number_json(t.recording_ms) + "}"@,
    );
    lemma_opt_number_is_readable(s.recording_ms, t.recording_ms, "}"@);
}

/// How a character is written in a string: most stand for themselves; quotes
/// and backslashes have a backslash in front, and so have the letters of the
/// five common control characters; the others are written by their code.
pub proof fn law_how_characters_are_written(c: char)
    ensures
        c > '\u{1f}' && c != '"' && c != '\\' ==> escape(c) == seq![c],
        c == '"' || c == '\\' ==> escape(c) == seq!['\\', c],
        c == '\n' ==> escape(c) == seq!['\\', 'n'],
        c == '\t' ==> escape(c) == seq!['\\', 't'],
        c == '\r' ==> escape(c) == seq!['\\', 'r'],
        c == '\u{8}' ==> escape(c) == seq!['\\', 'b'],
        c == '\u{c}' ==> escape(c) == seq!['\\', 'f'],
        c <= '\u{1f}' && c != '\n' && c != '\t' && c != '\r' && c != '\u{8}' && c != '\u{c}' ==> {
            let e = escape(c);
            &&& e.len() == 6
            &&& e.take(4) == seq!['\\', 'u', '0', '0']
            &&& e[4] == (if c <= '\u{f}' {
                '0'
            } else {
                '1'
            })
            &&& (c as int % 16 < 10 ==> e[5] as int == '0' as int + c as int % 16)
            &&& (c as int % 16 >= 10 ==> e[5] as int == 'a' as int + c as int % 16 - 10)
        },
{
    if c <= '\u{1f}' {
        assert(escape(c).len() == 6 ==> escape(c).take(4) =~= seq!['\\', 'u', '0', '0']);
    }
}

/// A string is written character by character, between quotes.
pub proof fn law_strings_are_written_in_order(a: Seq<char>, b: Seq<char>, c: char)
    ensures
        escaped(a + b) == escaped(a) + escaped(b),
        escaped(seq![c]) == escape(c),
        json_quoted(a) == seq!['"'] + escaped(a) + seq!['"'],
    decreases a.len(),
{
    reveal_with_fuel(escaped, 2);
    assert(seq![c].drop_first() =~= Seq::<char>::empty());
    assert(escape(c) + Seq::<char>::empty() =~= escape(c));
    if a.len() == 0 {
        assert(a + b =~= b);
        assert(escaped(a) + escaped(b) =~= escaped(b));
    } else {
        law_strings_are_written_in_order(a.drop_first(), b, c);
        assert((a + b).drop_first() =~= a.drop_first() + b);
        assert((a + b)[0] == a[0]);
        assert(escape(a[0]) + (escaped(a.drop_first()) + escaped(b)) =~= escape(a[0]) + escaped(
            a.drop_first(),
        ) + escaped(b));
    }
}

} // verus!
