//! The port access guard: raw access to both ports is asked of the operating
//! system, the status port first, before anything is read or written.

use vstd::prelude::*;
use crate::machine::{Action, Event, Request};
use crate::ports::Port;

verus! {

/// The operating system refused raw access to a port.
#[derive(Clone, Copy, Debug, PartialEq, Eq, Structural)]
pub struct PermissionError {
    /// The port that was asked for.
    pub port: Port,
    /// What the operating system answered; never zero.
    pub code: i32,
}

/// The guard's state: which port is to be asked for next, or how it ended.
#[derive(Clone, Copy, Debug, PartialEq, Eq, Structural)]
pub enum PortGuard {
    /// Nothing has been asked for yet; the status port comes first.
    WantsStatus,
    /// The status port was granted; the data port comes next.
    WantsData,
    /// Both ports were granted.
    Granted,
    /// A port was refused. The other one is not asked for after that.
    Denied(PermissionError),
}

/// What the operating system will answer: code `i` answers the request for
/// access number `i`, counted from zero.
pub type Codes = spec_fn(nat) -> i32;

/// What an observer sees of a guard that is driven to its end.
pub struct GuardRun {
    /// The requests issued, in order.
    pub trace: Seq<Request>,
    /// The result the guard finished with.
    pub result: Result<(), PermissionError>,
}

impl PortGuard {
    /// Whether the guard is over, one way or the other.
    pub open spec fn finished(self) -> bool {
        self is Granted || self is Denied
    }

    /// What the guard wants next.
    pub open spec fn pending(self) -> Action<Result<(), PermissionError>> {
        match self {
            PortGuard::WantsStatus => Action::Ask(Request::Acquire(Port::Status)),
            PortGuard::WantsData => Action::Ask(Request::Acquire(Port::Data)),
            PortGuard::Granted => Action::Finish(Ok(())),
            PortGuard::Denied(error) => Action::Finish(Err(error)),
        }
    }

    /// The guard after the operating system answered `code` for `port`.
    pub open spec fn answered(port: Port, code: i32) -> PortGuard {
        if code != 0 {
            PortGuard::Denied(PermissionError { port, code })
        } else {
            match port {
                Port::Status => PortGuard::WantsData,
                Port::Data => PortGuard::Granted,
            }
        }
    }

    /// The guard after `event`. Only the operating system's answer to the
    /// pending request changes anything.
    pub open spec fn next(self, event: Event) -> PortGuard {
        match (self, event) {
            (PortGuard::WantsStatus, Event::Permission(code)) => Self::answered(
                Port::Status,
                code,
            ),
            (PortGuard::WantsData, Event::Permission(code)) => Self::answered(Port::Data, code),
            _ => self,
        }
    }

    /// The number of requests that the guard can still issue.
    pub open spec fn bound(self) -> nat {
        match self {
            PortGuard::WantsStatus => 2,
            PortGuard::WantsData => 1,
            _ => 0,
        }
    }

    /// The guard driven to its end from this state, when the operating
    /// system answers `codes`, starting with the code number `at`.
    pub open spec fn run(self, codes: Codes, at: nat) -> GuardRun
        decreases self.bound(),
    {
        match self.pending() {
            Action::Finish(result) => GuardRun { trace: Seq::empty(), result },
            Action::Ask(request) => {
                let rest = self.next(Event::Permission(codes(at))).run(codes, at + 1);
                GuardRun { trace: seq![request] + rest.trace, result: rest.result }
            },
        }
    }

    /// What is to be done next: a request for the driver, or nothing more,
    /// with the result.
    pub fn action(&self) -> (action: Action<Result<(), PermissionError>>)
        ensures
            action == self.pending(),
    {
        match self {
            PortGuard::WantsStatus => Action::Ask(Request::Acquire(Port::Status)),
            PortGuard::WantsData => Action::Ask(Request::Acquire(Port::Data)),
            PortGuard::Granted => Action::Finish(Ok(())),
            PortGuard::Denied(error) => Action::Finish(Err(*error)),
        }
    }

    /// Takes in what came of the last request.
    pub fn step(&mut self, event: Event)
        ensures
            *final(self) == old(self).next(event),
    {
        if let Event::Permission(code) = event {
            match *self {
                PortGuard::WantsStatus => {
                    if code != 0 {
                        *self = PortGuard::Denied(PermissionError { port: Port::Status, code });
                    } else {
                        *self = PortGuard::WantsData;
                    }
                },
                PortGuard::WantsData => {
                    if code != 0 {
                        *self = PortGuard::Denied(PermissionError { port: Port::Data, code });
                    } else {
                        *self = PortGuard::Granted;
                    }
                },
                _ => {},
            }
        }
    }
}

/// The whole of what a fresh guard does: it asks for the status port, and
/// for the data port only if that was granted. It succeeds when both codes
/// are zero, and otherwise reports the first port that was refused, with
/// the code.
pub proof fn lemma_guard_run(codes: Codes, at: nat)
    ensures
        PortGuard::WantsStatus.run(codes, at) == if codes(at) != 0 {
            GuardRun {
                trace: seq![Request::Acquire(Port::Status)],
                result: Err(PermissionError { port: Port::Status, code: codes(at) }),
            }
        } else if codes(at + 1) != 0 {
            GuardRun {
                trace: seq![Request::Acquire(Port::Status), Request::Acquire(Port::Data)],
                result: Err(PermissionError { port: Port::Data, code: codes(at + 1) }),
            }
        } else {
            GuardRun {
                trace: seq![Request::Acquire(Port::Status), Request::Acquire(Port::Data)],
                result: Ok(()),
            }
        },
{
    let first = PortGuard::WantsStatus.next(Event::Permission(codes(at)));
    let run = PortGuard::WantsStatus.run(codes, at);
    assert(run.trace == seq![Request::Acquire(Port::Status)] + first.run(codes, at + 1).trace);
    if codes(at) != 0 {
        assert(run.trace =~= seq![Request::Acquire(Port::Status)]);
    } else {
        let second = first.next(Event::Permission(codes(at + 1)));
        assert(first.run(codes, at + 1).trace == seq![Request::Acquire(Port::Data)] + second.run(
            codes,
            at + 2,
        ).trace);
        assert(second.run(codes, at + 2).trace =~= Seq::<Request>::empty());
        assert(run.trace =~= seq![Request::Acquire(Port::Status), Request::Acquire(Port::Data)]);
    }
}

} // verus!
