//! The command line, once its words are taken apart: what the program was
//! asked to do, and the request that it sends for it.

use crate::ec::MAX_BRIGHTNESS;
use crate::error::{outcome, Error, ErrorView};
use crate::number::{decimal_i8, i8_text, parse_i8, push_i8};
use crate::protocol::{hex_color, parse_hex_color, Request};
use crate::text::to_chars;
use vstd::prelude::*;
use vstd::string::StringExecFns;

verus! {

/// The widest change of the brightness level that the command line takes.
pub const MAX_DELTA: i8 = 9;

/// What the command line asks for.
#[derive(Debug, Clone, PartialEq, Eq)]
pub enum Command {
    /// Run the daemon.
    Daemon,
    /// Turn the backlight on, at full brightness.
    On,
    /// Turn the backlight off.
    Off,
    /// Set the colour, given as `RRGGBB` or `#RRGGBB`.
    SetColor { color: String },
    /// Set the brightness level, 0 to 9.
    SetBrightness { level: u8 },
    /// Change the brightness level by a number from -9 to +9.
    AdjustBrightness { delta: String },
}

/// The command line as a whole.
#[derive(Debug, Clone, PartialEq, Eq)]
pub struct Cli {
    pub command: Command,
}

/// A `Command` with its texts as sequences of characters.
pub enum CommandView {
    Daemon,
    On,
    Off,
    SetColor { color: Seq<char> },
    SetBrightness { level: u8 },
    AdjustBrightness { delta: Seq<char> },
}

impl View for Command {
    type V = CommandView;

    open spec fn view(&self) -> CommandView {
        match self {
            Command::Daemon => CommandView::Daemon,
            Command::On => CommandView::On,
            Command::Off => CommandView::Off,
            Command::SetColor { color } => CommandView::SetColor { color: color@ },
            Command::SetBrightness { level } => CommandView::SetBrightness { level: *level },
            Command::AdjustBrightness { delta } => CommandView::AdjustBrightness { delta: delta@ },
        }
    }
}

/// What the program is to do.
#[derive(Debug, Clone, Copy, PartialEq, Eq, Structural)]
pub enum Invocation {
    /// Serve as the daemon.
    Serve,
    /// Send this request to the daemon.
    Send(Request),
}

/// The change of the brightness level that `delta` stands for: a signed
/// number in decimal, from -9 to 9.
pub open spec fn delta_for(delta: Seq<char>) -> Result<i8, ErrorView> {
    match decimal_i8(delta) {
        None => Err(ErrorView::Protocol("invalid delta: "@ + delta + " (expected -9 to +9)"@)),
        Some(d) => if -MAX_DELTA <= d <= MAX_DELTA {
            Ok(d)
        } else {
            Err(
                ErrorView::Protocol(
                    "delta out of range: "@ + i8_text(d) + " (expected -9 to +9)"@,
                ),
            )
        },
    }
}

/// The request that a command stands for, or what is wrong with its
/// argument. `Daemon` stands for no request, and nothing is said of it.
pub open spec fn request_for(command: CommandView) -> Result<Request, ErrorView> {
    match command {
        CommandView::Daemon => arbitrary(),
        CommandView::On => Ok(Request::On),
        CommandView::Off => Ok(Request::Off),
        CommandView::SetColor { color } => match hex_color(color) {
            Ok((r, g, b)) => Ok(Request::SetColor { r, g, b }),
            Err(e) => Err(e),
        },
        CommandView::SetBrightness { level } => if level > MAX_BRIGHTNESS {
            Err(ErrorView::InvalidBrightness(level))
        } else {
            Ok(Request::Brightness(level))
        },
        CommandView::AdjustBrightness { delta } => match delta_for(delta) {
            Ok(d) => Ok(Request::AdjustBrightness(d)),
            Err(e) => Err(e),
        },
    }
}

/// What the program is to do for a command: serve as the daemon, or send
/// the request that the command stands for.
pub open spec fn invocation_for(command: CommandView) -> Result<Invocation, ErrorView> {
    match command {
        CommandView::Daemon => Ok(Invocation::Serve),
        _ => match request_for(command) {
            Ok(request) => Ok(Invocation::Send(request)),
            Err(e) => Err(e),
        },
    }
}

/// Reads the change of the brightness level that the command line gives.
fn parse_delta(delta: &str) -> (r: Result<i8, Error>)
    ensures
        outcome(r) == delta_for(delta@),
{
    let chars: Vec<char> = to_chars(delta);
    match parse_i8(chars.as_slice()) {
        None => {
            let mut defect: String = String::from_str("invalid delta: ");
            defect.append(delta);
            defect.append(" (expected -9 to +9)");
            Err(Error::Protocol(defect))
        },
        Some(d) => {
            if d < -MAX_DELTA || d > MAX_DELTA {
                let mut defect: String = String::from_str("delta out of range: ");
                push_i8(&mut defect, d);
                defect.append(" (expected -9 to +9)");
                Err(Error::Protocol(defect))
            } else {
                Ok(d)
            }
        },
    }
}

/// The request that the client sends for `cmd`.
pub fn command_to_request(cmd: Command) -> (r: Result<Request, Error>)
    requires
        !(cmd is Daemon),
    ensures
        outcome(r) == request_for(cmd@),
{
    match cmd {
        Command::Daemon => Ok(Request::On),
        Command::On => Ok(Request::On),
        Command::Off => Ok(Request::Off),
        Command::SetColor { color } => {
            let (r, g, b) = parse_hex_color(color.as_str())?;
            Ok(Request::SetColor { r, g, b })
        },
        Command::SetBrightness { level } => {
            if level > MAX_BRIGHTNESS {
                return Err(Error::InvalidBrightness(level));
            }
            Ok(Request::Brightness(level))
        },
        Command::AdjustBrightness { delta } => {
            let delta: i8 = parse_delta(delta.as_str())?;
            Ok(Request::AdjustBrightness(delta))
        },
    }
}

/// Says what the program is to do for `command`.
pub fn run(command: Command) -> (r: Result<Invocation, Error>)
    ensures
        outcome(r) == invocation_for(command@),
{
    match command {
        Command::Daemon => Ok(Invocation::Serve),
        cmd => {
            let request: Request = command_to_request(cmd)?;
            Ok(Invocation::Send(request))
        },
    }
}

} // verus!
