//! The vocabulary shared by the protocol machines and whoever drives them.
//!
//! The library never touches a port, asks the operating system for anything
//! or sleeps. It says what is to be done next, as a [`Request`], and is told
//! what came of it, as an [`Event`]. The driver performs the request and
//! hands the event back, until the machine finishes.

use vstd::prelude::*;
use crate::ports::Port;

verus! {

/// Microseconds between two probes of a status byte.
pub const POLL_INTERVAL_MICROS: u64 = 1000;

/// Something the driver is asked to do.
#[derive(Clone, Copy, Debug, PartialEq, Eq, Structural)]
pub enum Request {
    /// Ask the operating system for raw access to the port.
    Acquire(Port),
    /// Read one byte from the port.
    Read(Port),
    /// Write the byte to the port.
    Write(Port, u8),
    /// Sleep for this many microseconds.
    Sleep(u64),
}

/// What came of a request.
#[derive(Clone, Copy, Debug, PartialEq, Eq, Structural)]
pub enum Event {
    /// The operating system's answer to [`Request::Acquire`]: zero grants
    /// access, anything else refuses it.
    Permission(i32),
    /// The byte that a [`Request::Read`] found.
    Byte(u8),
    /// A [`Request::Write`] or a [`Request::Sleep`] is over.
    Done,
}

/// What a machine wants next: a request performed, or nothing more, with its
/// result.
#[derive(Debug, PartialEq, Eq)]
pub enum Action<T> {
    /// The driver performs the request and steps the machine with the event.
    Ask(Request),
    /// The machine is finished.
    Finish(T),
}

/// The stream of bytes that port reads will find: reply `i` answers the
/// read number `i`, counted from zero over all ports.
pub type Replies = spec_fn(nat) -> u8;

/// The event that reports `request` as performed, when `byte` is what a
/// port read finds.
pub open spec fn performed(request: Request, byte: u8) -> Event {
    match request {
        Request::Read(_) => Event::Byte(byte),
        _ => Event::Done,
    }
}

/// The number of replies that performing `request` takes from the stream of
/// port reads: one for a read, none otherwise.
pub open spec fn reads_of(request: Request) -> nat {
    match request {
        Request::Read(_) => 1,
        _ => 0,
    }
}

} // verus!
