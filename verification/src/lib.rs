//! Control of a keyboard backlight that hangs on an embedded controller.
//!
//! A daemon owns the controller and serves clients over a socket, one line
//! in and one line out. The library holds what both sides decide: the wire
//! protocol, the controller's transactions, and the daemon's states. It does
//! no input or output; the program around it does what the library asks for
//! and reports what came of it.

pub mod cli;
pub mod client;
pub mod daemon;
pub mod ec;
pub mod error;
pub mod number;
pub mod protocol;
pub mod text;
