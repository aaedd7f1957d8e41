//! Client for the daemon's control socket.
//!
//! This runs on every hotkey press, so it stays deliberately thin: connect,
//! write one line, read one line, exit.

use vstd::prelude::*;
use crate::ipc::{Response, StatusReport};
use crate::paths::PathError;
use crate::text;

verus! {

/// How long to wait for the daemon, in seconds: generous enough to cover a
/// busy daemon, short enough that a wedged one does not hang a keybind forever.
pub const TIMEOUT_SECS: u64 = 5;

/// Why there is no answer, or not the one that was asked for.
#[derive(Debug, Clone, PartialEq, Eq)]
pub enum ClientError {
    /// There is no place for the socket.
    NoSocket(PathError),
    /// Nobody listens there.
    Unreachable { path: String, error: String },
    /// The connection could not be set up.
    Setup { error: String },
    /// The request could not be written.
    Writing { error: String },
    /// The response could not be read.
    Reading { error: String },
    /// The daemon hung up.
    Closed,
    /// The daemon answered something else than a response.
    Malformed { line: String, error: String },
    /// The daemon answered with an error.
    Refused { message: String },
    /// The daemon answered something else than its status.
    NotAStatus,
}

impl ClientError {
    /// What went wrong, in short.
    pub open spec fn headline(self) -> Seq<char> {
        match self {
            ClientError::NoSocket(e) => e.text(),
            ClientError::Unreachable { path, error } => "cannot reach the daemon at "@ + path@
                + " (is `sttd` running?)"@,
            ClientError::Setup { error } => error@,
            ClientError::Writing { error } => "writing request"@,
            ClientError::Reading { error } => "reading response"@,
            ClientError::Closed => "daemon closed the connection without replying"@,
            ClientError::Malformed { line, error } => "malformed response: "@ + line@,
            ClientError::Refused { message } => message@,
            ClientError::NotAStatus => "expected a status reply, got Ok"@,
        }
    }

    /// What lies behind that, if anything.
    pub open spec fn cause(self) -> Option<Seq<char>> {
        match self {
            ClientError::Unreachable { path, error } => Some(error@),
            ClientError::Writing { error } => Some(error@),
            ClientError::Reading { error } => Some(error@),
            ClientError::Malformed { line, error } => Some(error@),
            _ => None,
        }
    }

    /// The error in words.
    pub open spec fn text(self) -> Seq<char> {
        match self.cause() {
            Some(error) => self.headline() + ": "@ + error,
            None => self.headline(),
        }
    }

    /// What went wrong, in short.
    pub fn short_message(&self) -> (r: String)
        ensures
            r@ == self.headline(),
    {
        match self {
            ClientError::NoSocket(e) => e.message(),
            ClientError::Unreachable { path, error: _ } => {
                let mut m = "cannot reach the daemon at ".to_owned();
                m.append(path.as_str());
                m.append(" (is `sttd` running?)");
                m
            },
            ClientError::Setup { error } => error.clone(),
            ClientError::Writing { error: _ } => "writing request".to_owned(),
            ClientError::Reading { error: _ } => "reading response".to_owned(),
            ClientError::Closed => "daemon closed the connection without replying".to_owned(),
            ClientError::Malformed { line, error: _ } => {
                let mut m = "malformed response: ".to_owned();
                m.append(line.as_str());
                m
            },
            ClientError::Refused { message } => message.clone(),
            ClientError::NotAStatus => "expected a status reply, got Ok".to_owned(),
        }
    }

    /// The error in words.
    pub fn message(&self) -> (r: String)
        ensures
            r@ == self.text(),
    {
        let mut m = self.short_message();
        let cause = match self {
            ClientError::Unreachable { path: _, error } => Some(error),
            ClientError::Writing { error } => Some(error),
            ClientError::Reading { error } => Some(error),
            ClientError::Malformed { line: _, error } => Some(error),
            _ => None,
        };
        if let Some(error) = cause {
            m.append(": ");
            m.append(error.as_str());
        }
        m
    }
}

/// What was read of a response: the line without its end, or nothing at all.
pub fn reply_line(bytes_read: usize, line: &str) -> (r: Result<String, ClientError>)
    ensures
        if bytes_read == 0 {
            r == Err::<String, ClientError>(ClientError::Closed)
        } else {
            r matches Ok(body) && body@ == text::trimmed(line@)
        },
{
    if bytes_read == 0 {
        Err(ClientError::Closed)
    } else {
        Ok(text::trim(line))
    }
}

/// Turns a protocol-level error reply into an error.
pub fn send_ok(response: Result<Response, ClientError>) -> (r: Result<Response, ClientError>)
    ensures
        r == accepted(response),
{
    match response {
        Ok(Response::Error { message }) => Err(ClientError::Refused { message }),
        other => other,
    }
}

/// The status in the reply to a status request.
pub fn status(response: Result<Response, ClientError>) -> (r: Result<StatusReport, ClientError>)
    ensures
        r == status_of(response),
{
    match send_ok(response) {
        Ok(Response::Status(s)) => Ok(s),
        Ok(_) => Err(ClientError::NotAStatus),
        Err(e) => Err(e),
    }
}

/// What to print of the reply to a command: nothing, unless it is a status.
pub fn simple(response: Result<Response, ClientError>) -> (r: Result<
    Option<&'static str>,
    ClientError,
>)
    ensures
        match response {
            Ok(Response::Done) => r == Ok::<Option<&'static str>, ClientError>(None),
            Ok(Response::Status(s)) => r matches Ok(Some(line)) && line@ == s.state.name(),
            Ok(Response::Error { message }) => r == Err::<Option<&'static str>, ClientError>(
                ClientError::Refused { message },
            ),
            Err(e) => r == Err::<Option<&'static str>, ClientError>(e),
        },
{
    match send_ok(response) {
        Ok(Response::Status(s)) => Ok(Some(s.state.as_str())),
        Ok(_) => Ok(None),
        Err(e) => Err(e),
    }
}

/// An error says what is behind it: the headline comes first and the cause
/// last, and a refusal is told in the daemon's own words.
pub proof fn law_errors_name_their_cause(e: ClientError)
    ensures
        text::has_prefix(e.text(), e.headline()),
        e matches ClientError::Unreachable { path, error } ==> crate::paths::has_suffix(
            e.text(),
            error@,
        ) && text::has_prefix(e.headline(), "cannot reach the daemon at "@ + path@),
        e matches ClientError::Writing { error } ==> crate::paths::has_suffix(e.text(), error@),
        e matches ClientError::Reading { error } ==> crate::paths::has_suffix(e.text(), error@),
        e matches ClientError::Malformed { line, error } ==> crate::paths::has_suffix(
            e.text(),
            error@,
        ) && crate::paths::has_suffix(e.headline(), line@),
        e matches ClientError::Refused { message } ==> e.text() == message@,
        e matches ClientError::Setup { error } ==> e.text() == error@,
{
    let t = e.text();
    let h = e.headline();
    assert(t.take(h.len() as int) =~= h);
    if let Some(error) = e.cause() {
        assert(t.skip(t.len() - error.len()) =~= error);
    }
    match e {
        ClientError::Unreachable { path, error } => {
            let p = "cannot reach the daemon at "@ + path@;
            assert(h.take(p.len() as int) =~= p);
        },
        ClientError::Malformed { line, error } => {
            assert(h.skip(h.len() - line@.len()) =~= line@);
        },
        _ => {},
    }
}

/// A response, with a refusal as an error.
pub open spec fn accepted(response: Result<Response, ClientError>) -> Result<Response, ClientError> {
    match response {
        Ok(Response::Error { message }) => Err(ClientError::Refused { message }),
        _ => response,
    }
}

/// The status in a response.
pub open spec fn status_of(response: Result<Response, ClientError>) -> Result<
    StatusReport,
    ClientError,
> {
    match response {
        Ok(Response::Status(s)) => Ok(s),
        Ok(Response::Error { message }) => Err(ClientError::Refused { message }),
        Ok(Response::Done) => Err(ClientError::NotAStatus),
        Err(e) => Err(e),
    }
}

/// A refusal is never taken for success, and comes with the daemon's words;
/// everything else is handed on as it is, and only a status is taken for one.
pub proof fn law_refusals_are_errors(response: Result<Response, ClientError>)
    ensures
        accepted(response) is Ok <==> (response matches Ok(r) && !(r is Error)),
        accepted(response) is Ok ==> accepted(response) == response,
        response is Err ==> accepted(response) == response,
        response matches Ok(Response::Error { message }) ==> accepted(response) == Err::<
            Response,
            ClientError,
        >(ClientError::Refused { message }),
        status_of(response) is Ok <==> (response matches Ok(r) && r is Status),
        response matches Ok(Response::Status(s)) ==> status_of(response) == Ok::<
            StatusReport,
            ClientError,
        >(s),
        response matches Ok(Response::Error { message }) ==> status_of(response) == Err::<
            StatusReport,
            ClientError,
        >(ClientError::Refused { message }),
        response == Ok::<Response, ClientError>(Response::Done) ==> status_of(response) == Err::<
            StatusReport,
            ClientError,
        >(ClientError::NotAStatus),
        response matches Err(e) ==> status_of(response) == Err::<StatusReport, ClientError>(e),
{
}

} // verus!
