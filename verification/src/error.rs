//! What can go wrong, and how each failure reads.

use crate::number::{push_u8, u8_text};
use vstd::prelude::*;
use vstd::string::StringExecFns;

verus! {

/// The kinds of input/output failure that the library tells apart.
#[derive(Debug, Clone, Copy, PartialEq, Eq, Structural)]
pub enum IoKind {
    /// What was asked for does not exist.
    NotFound,
    /// The operating system refused access.
    PermissionDenied,
    /// Nobody listens at the other end.
    ConnectionRefused,
    /// Nothing is ready yet, and the call would have had to wait.
    WouldBlock,
    /// Any other failure.
    Other,
}

/// An input/output failure as the host met it: its kind, and the text that
/// the operating system gave for it.
#[derive(Debug, Clone, PartialEq, Eq)]
pub struct IoFailure {
    pub kind: IoKind,
    pub message: String,
}

/// An `IoFailure` with its text as a sequence of characters.
pub struct IoFailureView {
    pub kind: IoKind,
    pub message: Seq<char>,
}

impl View for IoFailure {
    type V = IoFailureView;

    open spec fn view(&self) -> IoFailureView {
        IoFailureView { kind: self.kind, message: self.message@ }
    }
}

/// A failure of the backlight control.
#[derive(Debug, Clone, PartialEq, Eq)]
pub enum Error {
    /// Access to the I/O ports or to the socket failed; the text is the
    /// operating system's.
    Io(String),
    /// The controller stayed busy until the deadline.
    EcTimeout,
    /// A brightness level above 9.
    InvalidBrightness(u8),
    /// A colour that is not six hexadecimal digits; the text is what was given.
    InvalidColor(String),
    /// A malformed line; the text names the defect.
    Protocol(String),
    /// The operating system refused access to the ports or to the socket.
    Permission,
    /// Nobody listens on the daemon's socket.
    DaemonNotRunning,
}

/// An `Error` with each text as a sequence of characters.
pub enum ErrorView {
    Io(Seq<char>),
    EcTimeout,
    InvalidBrightness(u8),
    InvalidColor(Seq<char>),
    Protocol(Seq<char>),
    Permission,
    DaemonNotRunning,
}

impl View for Error {
    type V = ErrorView;

    open spec fn view(&self) -> ErrorView {
        match self {
            Error::Io(text) => ErrorView::Io(text@),
            Error::EcTimeout => ErrorView::EcTimeout,
            Error::InvalidBrightness(level) => ErrorView::InvalidBrightness(*level),
            Error::InvalidColor(text) => ErrorView::InvalidColor(text@),
            Error::Protocol(text) => ErrorView::Protocol(text@),
            Error::Permission => ErrorView::Permission,
            Error::DaemonNotRunning => ErrorView::DaemonNotRunning,
        }
    }
}

impl ErrorView {
    /// The failure in words, as it is shown to a person.
    pub open spec fn message(self) -> Seq<char> {
        match self {
            ErrorView::Io(text) => "I/O error: "@ + text,
            ErrorView::EcTimeout => "EC timeout (IBF stuck)"@,
            ErrorView::InvalidBrightness(level) => "invalid brightness level: "@ + u8_text(level)
                + " (expected 0-9)"@,
            ErrorView::InvalidColor(text) => "invalid color: "@ + text,
            ErrorView::Protocol(text) => "protocol error: "@ + text,
            ErrorView::Permission => "permission denied"@,
            ErrorView::DaemonNotRunning => "daemon not running (cannot connect to socket)"@,
        }
    }

    /// The failure as a response carries it: a malformed line by its defect
    /// alone, any other failure by its message.
    pub open spec fn description(self) -> Seq<char> {
        match self {
            ErrorView::Protocol(text) => text,
            _ => self.message(),
        }
    }
}

/// A result with the error, if there is one, taken by its view.
pub open spec fn outcome<T>(r: Result<T, Error>) -> Result<T, ErrorView> {
    match r {
        Ok(v) => Ok(v),
        Err(e) => Err(e@),
    }
}

impl Error {
    /// The failure in words.
    pub fn to_string(&self) -> (text: String)
        ensures
            text@ == self@.message(),
    {
        match self {
            Error::Io(detail) => {
                let mut text: String = String::from_str("I/O error: ");
                text.append(detail.as_str());
                text
            },
            Error::EcTimeout => String::from_str("EC timeout (IBF stuck)"),
            Error::InvalidBrightness(level) => {
                let mut text: String = String::from_str("invalid brightness level: ");
                push_u8(&mut text, *level);
                text.append(" (expected 0-9)");
                text
            },
            Error::InvalidColor(given) => {
                let mut text: String = String::from_str("invalid color: ");
                text.append(given.as_str());
                text
            },
            Error::Protocol(defect) => {
                let mut text: String = String::from_str("protocol error: ");
                text.append(defect.as_str());
                text
            },
            Error::Permission => String::from_str("permission denied"),
            Error::DaemonNotRunning => String::from_str(
                "daemon not running (cannot connect to socket)",
            ),
        }
    }

    /// The failure as a response carries it.
    pub fn description(&self) -> (text: String)
        ensures
            text@ == self@.description(),
    {
        match self {
            Error::Protocol(defect) => defect.clone(),
            _ => self.to_string(),
        }
    }
}

impl From<IoFailure> for Error {
    /// An input/output failure that nothing more is known of is passed on
    /// with its text.
    fn from(failure: IoFailure) -> (e: Error)
        ensures
            e@ == ErrorView::Io(failure@.message),
    {
        Error::Io(failure.message)
    }
}

impl vstd::std_specs::convert::FromSpecImpl<IoFailure> for Error {
    open spec fn obeys_from_spec() -> bool {
        true
    }

    open spec fn from_spec(failure: IoFailure) -> Error {
        Error::Io(failure.message)
    }
}

} // verus!
