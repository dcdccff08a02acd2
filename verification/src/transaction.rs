//! The handshake engine: a transaction is a plan of stages, carried out one
//! request at a time.
//!
//! A stage waits for a flag of the status byte, sends a byte or receives
//! one. Waiting is bounded: the status byte is probed once, then again after
//! each of at most [`RETRY_BUDGET`] sleeps of [`POLL_INTERVAL_MICROS`]
//! microseconds, and a flag that never shows the expected state ends the
//! whole transaction with a [`TimeoutError`].

use vstd::prelude::*;
use crate::machine::{
    performed,
    reads_of,
    Action,
    Event,
    Replies,
    Request,
    POLL_INTERVAL_MICROS,
};
use crate::ports::{Port, StatusFlag};

verus! {

/// How often a wait sleeps and probes again after its first probe.
pub const RETRY_BUDGET: u8 = 100;

/// A wait gave up: the flag did not show the expected state within the
/// retry budget.
#[derive(Clone, Copy, Debug, PartialEq, Eq, Structural)]
pub struct TimeoutError {
    /// The port whose status byte was probed.
    pub port: Port,
    /// The flag that was waited for.
    pub flag: StatusFlag,
    /// The state the flag was expected to reach.
    pub expected: bool,
    /// The status byte that the last probe found.
    pub status: u8,
}

/// One stage of a transaction.
#[derive(Clone, Copy, Debug, PartialEq, Eq, Structural)]
pub enum Stage {
    /// Probe the status byte of `port` until `flag` shows `expected`.
    Await { port: Port, flag: StatusFlag, expected: bool },
    /// Write `value` to `port`.
    Send { port: Port, value: u8 },
    /// Read a byte from `port` and keep it as the transaction's value.
    Receive { port: Port },
}

/// The most requests that a stage can issue: for a wait, every probe and
/// every sleep of one that times out; one for a transfer.
pub open spec fn stage_cost(stage: Stage) -> nat {
    match stage {
        Stage::Await { port, flag, expected } => 2 * RETRY_BUDGET as nat + 1,
        _ => 1,
    }
}

/// The most requests that the stages of `plan` from `from` on can issue.
pub open spec fn plan_cost(plan: Seq<Stage>, from: nat) -> nat
    decreases plan.len() - from,
{
    if from >= plan.len() {
        0
    } else {
        stage_cost(plan[from as int]) + plan_cost(plan, from + 1)
    }
}

/// The mathematical state of a transaction.
pub struct State {
    /// The stages to carry out, in order.
    pub plan: Seq<Stage>,
    /// The index of the current stage; the length of the plan when every
    /// stage is over.
    pub pc: nat,
    /// The sleeps that the current wait has asked for so far.
    pub retries: nat,
    /// Whether the current wait has asked for a sleep that is not over yet.
    pub sleeping: bool,
    /// The byte that the last receive stage read; zero before any.
    pub received: u8,
    /// The timeout that ended the transaction, if one did.
    pub failure: Option<TimeoutError>,
}

/// What an observer sees of a transaction that is driven to its end.
pub struct Run {
    /// The requests issued, in order.
    pub trace: Seq<Request>,
    /// The number of port reads among them.
    pub reads: nat,
    /// The result the transaction finished with.
    pub result: Result<(), TimeoutError>,
    /// The index of the stage at which it finished: the wait that timed
    /// out, or the length of the plan.
    pub stage: nat,
    /// The byte that the last receive stage read; zero if there was none.
    pub received: u8,
}

impl Run {
    /// This run, after the requests `trace` with `reads` port reads among
    /// them.
    pub open spec fn after(self, trace: Seq<Request>, reads: nat) -> Run {
        Run { trace: trace + self.trace, reads: reads + self.reads, ..self }
    }
}

impl State {
    /// The state of a transaction that has not begun.
    pub open spec fn begin(plan: Seq<Stage>) -> State {
        State { plan, pc: 0, retries: 0, sleeping: false, received: 0, failure: None }
    }

    /// The state at the start of stage `pc`, with `received` as the value
    /// read so far.
    pub open spec fn at_stage(plan: Seq<Stage>, pc: nat, received: u8) -> State {
        State { plan, pc, retries: 0, sleeping: false, received, failure: None }
    }

    /// Whether the transaction is over, by completing its plan or by a
    /// timeout.
    pub open spec fn finished(self) -> bool {
        self.failure is Some || self.pc >= self.plan.len()
    }

    /// The current stage of an unfinished transaction.
    pub open spec fn stage(self) -> Stage
        recommends
            self.pc < self.plan.len(),
    {
        self.plan[self.pc as int]
    }

    /// What the transaction wants next.
    pub open spec fn pending(self) -> Action<Result<(), TimeoutError>> {
        if let Some(error) = self.failure {
            Action::Finish(Err(error))
        } else if self.pc >= self.plan.len() {
            Action::Finish(Ok(()))
        } else {
            match self.stage() {
                Stage::Await { port, flag, expected } => if self.sleeping {
                    Action::Ask(Request::Sleep(POLL_INTERVAL_MICROS))
                } else {
                    Action::Ask(Request::Read(port))
                },
                Stage::Send { port, value } => Action::Ask(Request::Write(port, value)),
                Stage::Receive { port } => Action::Ask(Request::Read(port)),
            }
        }
    }

    /// The state at the start of the stage after the current one.
    pub open spec fn advance(self) -> State {
        State { pc: self.pc + 1, retries: 0, sleeping: false, ..self }
    }

    /// The state after `event`. An event that does not answer the pending
    /// request changes nothing, and neither does any event once the
    /// transaction is over.
    pub open spec fn next(self, event: Event) -> State {
        if self.finished() {
            self
        } else {
            match self.stage() {
                Stage::Await { port, flag, expected } => if self.sleeping {
                    match event {
                        Event::Done => State { sleeping: false, ..self },
                        _ => self,
                    }
                } else {
                    match event {
                        Event::Byte(status) => if flag.shows(status, expected) {
                            self.advance()
                        } else if self.retries < RETRY_BUDGET {
                            State { retries: self.retries + 1, sleeping: true, ..self }
                        } else {
                            State {
                                failure: Some(TimeoutError { port, flag, expected, status }),
                                ..self
                            }
                        },
                        _ => self,
                    }
                },
                Stage::Send { port, value } => match event {
                    Event::Done => self.advance(),
                    _ => self,
                },
                Stage::Receive { port } => match event {
                    Event::Byte(byte) => State { received: byte, ..self.advance() },
                    _ => self,
                },
            }
        }
    }

    /// The most requests that the transaction can still issue, whatever the
    /// port reads find.
    pub open spec fn bound(self) -> nat {
        if self.finished() {
            0
        } else {
            let here: nat = match self.stage() {
                Stage::Await { port, flag, expected } => {
                    let left: nat = if self.retries >= RETRY_BUDGET {
                        0
                    } else {
                        (RETRY_BUDGET - self.retries) as nat
                    };
                    2 * left + 1 + if self.sleeping {
                        1nat
                    } else {
                        0nat
                    }
                },
                _ => 1,
            };
            here + plan_cost(self.plan, self.pc + 1)
        }
    }

    /// The transaction driven to its end from this state, when the port
    /// reads find `replies`, starting with the reply number `at`.
    pub open spec fn run(self, replies: Replies, at: nat) -> Run
        decreases self.bound(),
    {
        match self.pending() {
            Action::Finish(result) => Run {
                trace: Seq::empty(),
                reads: 0,
                result,
                stage: self.pc,
                received: self.received,
            },
            Action::Ask(request) => {
                proof {
                    self.lemma_answer_lowers_bound(replies(at));
                }
                self.next(performed(request, replies(at))).run(
                    replies,
                    at + reads_of(request),
                ).after(seq![request], reads_of(request))
            },
        }
    }

    /// Every answered request brings the transaction closer to its end: the
    /// bound on the requests still to come goes down.
    pub proof fn lemma_answer_lowers_bound(self, byte: u8)
        requires
            !self.finished(),
        ensures
            self.pending() matches Action::Ask(request) && self.next(
                performed(request, byte),
            ).bound() < self.bound(),
    {
        let request = self.pending()->Ask_0;
        let after = self.next(performed(request, byte));
        assert(plan_cost(self.plan, self.pc + 1) == if self.pc + 1 >= self.plan.len() {
            0
        } else {
            stage_cost(self.plan[self.pc as int + 1]) + plan_cost(self.plan, self.pc + 2)
        });
    }

    /// A transaction ends, whatever the port reads find: it issues no more
    /// requests than its bound allows, and no more reads than requests.
    pub proof fn lemma_run_is_bounded(self, replies: Replies, at: nat)
        ensures
            self.run(replies, at).trace.len() <= self.bound(),
            self.run(replies, at).reads <= self.run(replies, at).trace.len(),
        decreases self.bound(),
    {
        if let Action::Ask(request) = self.pending() {
            self.lemma_answer_lowers_bound(replies(at));
            self.next(performed(request, replies(at))).lemma_run_is_bounded(
                replies,
                at + reads_of(request),
            );
        }
    }
}

/// A transaction with the controller: a plan of stages and how far it has
/// been carried out.
#[derive(Debug)]
pub struct Transaction {
    plan: Vec<Stage>,
    pc: usize,
    retries: u8,
    sleeping: bool,
    received: u8,
    failure: Option<TimeoutError>,
}

impl View for Transaction {
    type V = State;

    closed spec fn view(&self) -> State {
        State {
            plan: self.plan@,
            pc: self.pc as nat,
            retries: self.retries as nat,
            sleeping: self.sleeping,
            received: self.received,
            failure: self.failure,
        }
    }
}

impl Transaction {
    /// A transaction that will carry out `plan`.
    pub fn new(plan: Vec<Stage>) -> (transaction: Transaction)
        ensures
            transaction@ == State::begin(plan@),
    {
        Transaction { plan, pc: 0, retries: 0, sleeping: false, received: 0, failure: None }
    }

    /// What is to be done next: a request for the driver, or nothing more,
    /// with the result.
    pub fn action(&self) -> (action: Action<Result<(), TimeoutError>>)
        ensures
            action == self@.pending(),
    {
        if let Some(error) = self.failure {
            Action::Finish(Err(error))
        } else if self.pc >= self.plan.len() {
            Action::Finish(Ok(()))
        } else {
            match self.plan[self.pc] {
                Stage::Await { port, flag, expected } => if self.sleeping {
                    Action::Ask(Request::Sleep(POLL_INTERVAL_MICROS))
                } else {
                    Action::Ask(Request::Read(port))
                },
                Stage::Send { port, value } => Action::Ask(Request::Write(port, value)),
                Stage::Receive { port } => Action::Ask(Request::Read(port)),
            }
        }
    }

    /// Takes in what came of the last request.
    pub fn step(&mut self, event: Event)
        ensures
            final(self)@ == old(self)@.next(event),
    {
        if self.failure.is_some() || self.pc >= self.plan.len() {
            return ;
        }
        match self.plan[self.pc] {
            Stage::Await { port, flag, expected } => if self.sleeping {
                if let Event::Done = event {
                    self.sleeping = false;
                }
            } else if let Event::Byte(status) = event {
                if flag.test(status) == expected {
                    self.pc = self.pc + 1;
                    self.retries = 0;
                } else if self.retries < RETRY_BUDGET {
                    self.retries = self.retries + 1;
                    self.sleeping = true;
                } else {
                    self.failure = Some(TimeoutError { port, flag, expected, status });
                }
            },
            Stage::Send { port, value } => if let Event::Done = event {
                self.pc = self.pc + 1;
                self.retries = 0;
                self.sleeping = false;
            },
            Stage::Receive { port } => if let Event::Byte(byte) = event {
                self.received = byte;
                self.pc = self.pc + 1;
                self.retries = 0;
                self.sleeping = false;
            },
        }
    }

    /// The byte that the last receive stage read; zero before any.
    pub fn received(&self) -> (byte: u8)
        ensures
            byte == self@.received,
    {
        self.received
    }
}

} // verus!
