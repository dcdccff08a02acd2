//! Embedded-controller access for Clevo laptops: fan duty and temperature
//! sensors, spoken over the controller's two legacy I/O ports.
//!
//! The protocol is written as state machines that perform no I/O. A machine
//! says what is to be done next, as a [`machine::Request`]: ask the
//! operating system for a port, read a port, write a port, sleep. A driver
//! does it and hands back what came of it, as a [`machine::Event`], until
//! the machine finishes with its result:
//!
//! ```text
//! let mut session = Session::new(command);
//! let result = loop {
//!     match session.action() {
//!         Action::Finish(result) => break result,
//!         Action::Ask(request) => session.step(perform(request)),
//!     }
//! };
//! ```
//!
//! Every machine is proved to end, and what it asks for is proved for every
//! stream of bytes that the ports may give:
//!
//! - [`fan_control`] holds the handshake wait, the register read and write,
//!   the temperature sensors and the fan duty;
//! - [`transaction`] is the engine under them and [`script`] says what a
//!   transaction does from outside;
//! - [`guard`] asks for the ports and [`session`] puts a whole run of the
//!   program together;
//! - [`duty`] scales a fan duty to the controller's byte and [`args`] reads
//!   the command line.

pub mod args;
pub mod duty;
pub mod fan_control;
pub mod guard;
pub mod machine;
pub mod ports;
pub mod script;
pub mod session;
pub mod transaction;
