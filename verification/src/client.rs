//! The client's side of an exchange with the daemon: what it sends, and what
//! it makes of the answer.

use crate::error::{Error, ErrorView, IoFailure, IoFailureView, IoKind};
use crate::protocol::{lemma_request_round_trip, Request, Response, ResponseView};
use crate::text::{is_text, lemma_words_before_blank, to_chars, whitespace};
use vstd::prelude::*;
use vstd::string::StringExecFns;

verus! {

/// The failure that a client reports when it cannot reach the daemon: the
/// daemon is not running where nobody listens or the socket does not exist,
/// and a refusal by the operating system is told apart from other failures.
pub open spec fn unreachable_daemon(failure: IoFailureView) -> ErrorView {
    if failure.kind == IoKind::ConnectionRefused || failure.kind == IoKind::NotFound {
        ErrorView::DaemonNotRunning
    } else if failure.kind == IoKind::PermissionDenied {
        ErrorView::Permission
    } else {
        ErrorView::Io(failure.message)
    }
}

/// The failure to report when connecting to the daemon has failed.
pub fn connect_error(failure: IoFailure) -> (e: Error)
    ensures
        e@ == unreachable_daemon(failure@),
{
    match failure.kind {
        IoKind::ConnectionRefused => Error::DaemonNotRunning,
        IoKind::NotFound => Error::DaemonNotRunning,
        IoKind::PermissionDenied => Error::Permission,
        _ => Error::Io(failure.message),
    }
}

/// The line that the client sends for `request`, line feed included. The
/// daemon reads the request back from it.
pub fn request_line(request: &Request) -> (line: String)
    ensures
        line@ == request.wire() + "\n"@,
        Request::decode(line@) == Ok::<Request, ErrorView>(*request),
{
    let mut line: String = request.to_line();
    line.append("\n");
    proof {
        lemma_sent_line_is_read_back(*request);
    }
    line
}

/// A request and a line feed behind it are read as that request.
pub proof fn lemma_sent_line_is_read_back(request: Request)
    ensures
        Request::decode(request.wire() + "\n"@) == Ok::<Request, ErrorView>(request),
{
    reveal_strlit("\n");
    assert(whitespace("\n"@[0]));
    lemma_words_before_blank(request.wire(), "\n"@);
    lemma_request_round_trip(request);
}

/// What the client does with the daemon's answer.
#[derive(Debug, Clone, PartialEq, Eq)]
pub enum Outcome {
    /// The request was carried out: show the message, if there is one, and
    /// end with status 0.
    Done(Option<String>),
    /// The request failed: show the message as an error, and end with
    /// status 1.
    Failed(String),
}

/// An `Outcome` with its message as a sequence of characters.
pub enum OutcomeView {
    Done(Option<Seq<char>>),
    Failed(Seq<char>),
}

impl View for Outcome {
    type V = OutcomeView;

    open spec fn view(&self) -> OutcomeView {
        match self {
            Outcome::Done(Some(message)) => OutcomeView::Done(Some(message@)),
            Outcome::Done(None) => OutcomeView::Done(None),
            Outcome::Failed(message) => OutcomeView::Failed(message@),
        }
    }
}

/// What a response means to the client: a failure is shown with its
/// message; a success is shown unless its message is empty or a bare `OK`.
pub open spec fn verdict(response: ResponseView) -> OutcomeView {
    match response {
        ResponseView::Failure(message) => OutcomeView::Failed(message),
        ResponseView::Success(message) => if message.len() == 0 || message == "OK"@ {
            OutcomeView::Done(None)
        } else {
            OutcomeView::Done(Some(message))
        },
    }
}

/// Reads the daemon's answer and says what the client does with it.
pub fn read_response(line: &str) -> (outcome: Outcome)
    ensures
        outcome@ == verdict(ResponseView::decode(line@)),
{
    match Response::parse(line) {
        Response::Failure(message) => Outcome::Failed(message),
        Response::Success(message) => {
            let chars: Vec<char> = to_chars(message.as_str());
            if chars.len() == 0 || is_text(chars.as_slice(), "OK") {
                Outcome::Done(None)
            } else {
                Outcome::Done(Some(message))
            }
        },
    }
}

} // verus!
