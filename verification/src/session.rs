//! One run of the program: permission first, then the registers.
//!
//! A session carries out what the operator asked for. Unless that is the
//! help text, it first asks for raw access to both ports. Only when both
//! were granted does it turn to the registers: a dump reads the CPU
//! temperature and then the GPU temperature, a duty change writes the fan
//! duty. A refusal ends the session on the spot.

use vstd::prelude::*;
use crate::args::EParsedArgs;
use crate::fan_control::{
    fan_control_init,
    get_cpu_temp,
    get_gpu_temp,
    read_pending,
    read_plan,
    set_fan_duty,
    FanControlError,
    FanDuty,
    FanDutyState,
    RegisterRead,
    EC_REG_CPU_TEMP,
    EC_REG_GPU_TEMP,
};
use crate::guard::{lemma_guard_run, Codes, PermissionError, PortGuard};
use crate::machine::{performed, reads_of, Action, Event, Replies, Request};
use crate::ports::Port;
use crate::transaction::{Run, State, TimeoutError};

verus! {

/// What a session did.
#[derive(Clone, Copy, Debug, PartialEq, Eq, Structural)]
pub enum Report {
    /// Nothing: the help text was asked for.
    Help,
    /// It read both temperatures, in degrees Celsius.
    Temperatures { cpu: u8, gpu: u8 },
    /// It set the fan duty to this percentage.
    FanDuty(u8),
}

/// Why a session did not do what was asked.
#[derive(Clone, Copy, Debug, PartialEq, Eq, Structural)]
pub enum Failure {
    /// Raw access to a port was refused.
    Permission(PermissionError),
    /// The fan duty asked for, given here, is out of range.
    Validation(u8),
    /// A wait timed out.
    Timeout(TimeoutError),
}

/// What a session did, given the result of its fan duty change.
pub open spec fn duty_report(fan_duty: u8, result: Result<(), FanControlError>) -> Result<
    Report,
    Failure,
> {
    match result {
        Ok(()) => Ok(Report::FanDuty(fan_duty)),
        Err(FanControlError::Validation(wrong)) => Err(Failure::Validation(wrong)),
        Err(FanControlError::Timeout(error)) => Err(Failure::Timeout(error)),
    }
}

/// The mathematical state of the register work of a session.
pub enum WorkState {
    /// There is none.
    Help,
    /// Both temperatures are read, the CPU's first.
    Dump { cpu: State, gpu: State },
    /// The fan duty is changed.
    Duty(FanDutyState),
}

impl WorkState {
    /// The work that `command` asks for, not begun.
    pub open spec fn begin(command: EParsedArgs) -> WorkState {
        match command {
            EParsedArgs::Help => WorkState::Help,
            EParsedArgs::Dump => WorkState::Dump {
                cpu: State::begin(read_plan(EC_REG_CPU_TEMP)),
                gpu: State::begin(read_plan(EC_REG_GPU_TEMP)),
            },
            EParsedArgs::Duty(fan_duty) => WorkState::Duty(FanDutyState::begin(fan_duty)),
        }
    }

    /// What the work wants next. The GPU temperature is not read before the
    /// CPU temperature has been, and not at all if that read timed out.
    pub open spec fn pending(self) -> Action<Result<Report, Failure>> {
        match self {
            WorkState::Help => Action::Finish(Ok(Report::Help)),
            WorkState::Dump { cpu, gpu } => match read_pending(cpu) {
                Action::Ask(request) => Action::Ask(request),
                Action::Finish(Err(error)) => Action::Finish(Err(Failure::Timeout(error))),
                Action::Finish(Ok(cpu_temp)) => match read_pending(gpu) {
                    Action::Ask(request) => Action::Ask(request),
                    Action::Finish(Err(error)) => Action::Finish(Err(Failure::Timeout(error))),
                    Action::Finish(Ok(gpu_temp)) => Action::Finish(
                        Ok(Report::Temperatures { cpu: cpu_temp, gpu: gpu_temp }),
                    ),
                },
            },
            WorkState::Duty(change) => match change.pending() {
                Action::Ask(request) => Action::Ask(request),
                Action::Finish(result) => Action::Finish(duty_report(change.fan_duty, result)),
            },
        }
    }

    /// The work after `event`.
    pub open spec fn next(self, event: Event) -> WorkState {
        match self {
            WorkState::Help => self,
            WorkState::Dump { cpu, gpu } => if !cpu.finished() {
                WorkState::Dump { cpu: cpu.next(event), gpu }
            } else if cpu.failure is None {
                WorkState::Dump { cpu, gpu: gpu.next(event) }
            } else {
                self
            },
            WorkState::Duty(change) => WorkState::Duty(change.next(event)),
        }
    }

    /// An upper bound on the requests that the work can still issue.
    pub open spec fn bound(self) -> nat {
        match self {
            WorkState::Help => 0,
            WorkState::Dump { cpu, gpu } => cpu.bound() + gpu.bound(),
            WorkState::Duty(change) => change.write.bound(),
        }
    }
}

/// The mathematical state of a session.
pub struct SessionState {
    /// The port access guard.
    pub guard: PortGuard,
    /// The register work.
    pub work: WorkState,
}

/// What an observer sees of a session that is driven to its end.
pub struct SessionRun {
    /// The requests issued, in order.
    pub trace: Seq<Request>,
    /// The result the session finished with.
    pub result: Result<Report, Failure>,
}

impl SessionState {
    /// The state of a session for `command` that has not begun.
    pub open spec fn begin(command: EParsedArgs) -> SessionState {
        SessionState { guard: PortGuard::WantsStatus, work: WorkState::begin(command) }
    }

    /// What the session wants next. The help text needs no port. Anything
    /// else waits for the guard, and a refusal finishes the session.
    pub open spec fn pending(self) -> Action<Result<Report, Failure>> {
        if self.work is Help {
            Action::Finish(Ok(Report::Help))
        } else {
            match self.guard.pending() {
                Action::Ask(request) => Action::Ask(request),
                Action::Finish(Err(error)) => Action::Finish(Err(Failure::Permission(error))),
                Action::Finish(Ok(())) => self.work.pending(),
            }
        }
    }

    /// The session after `event`. The event goes to the guard until both
    /// ports are granted, and only then to the register work.
    pub open spec fn next(self, event: Event) -> SessionState {
        if self.work is Help {
            self
        } else if !self.guard.finished() {
            SessionState { guard: self.guard.next(event), ..self }
        } else if self.guard is Granted {
            SessionState { work: self.work.next(event), ..self }
        } else {
            self
        }
    }

    /// An upper bound on the requests that the session can still issue.
    pub open spec fn bound(self) -> nat {
        self.guard.bound() + self.work.bound()
    }

    /// The event that reports `request` as performed, when the operating
    /// system answers `code` and a port read finds `byte`.
    pub open spec fn reported(request: Request, code: i32, byte: u8) -> Event {
        match request {
            Request::Acquire(_) => Event::Permission(code),
            _ => performed(request, byte),
        }
    }

    /// The number of answers that performing `request` takes from the
    /// operating system: one for asking access, none otherwise.
    pub open spec fn answers_of(request: Request) -> nat {
        match request {
            Request::Acquire(_) => 1,
            _ => 0,
        }
    }

    /// The session driven to its end from this state, when the operating
    /// system answers `codes`, starting with the code number `asked`, and
    /// the port reads find `replies`, starting with the reply number `at`.
    pub open spec fn run(self, codes: Codes, asked: nat, replies: Replies, at: nat) -> SessionRun
        decreases self.bound(),
    {
        match self.pending() {
            Action::Finish(result) => SessionRun { trace: Seq::empty(), result },
            Action::Ask(request) => {
                proof {
                    self.lemma_report_lowers_bound(codes(asked), replies(at));
                }
                let rest = self.next(Self::reported(request, codes(asked), replies(at))).run(
                    codes,
                    asked + Self::answers_of(request),
                    replies,
                    at + reads_of(request),
                );
                SessionRun { trace: seq![request] + rest.trace, result: rest.result }
            },
        }
    }

    /// Every request performed brings the session closer to its end.
    pub proof fn lemma_report_lowers_bound(self, code: i32, byte: u8)
        ensures
            self.pending() matches Action::Ask(request) ==> self.next(
                Self::reported(request, code, byte),
            ).bound() < self.bound(),
    {
        if let Action::Ask(request) = self.pending() {
            if self.guard.finished() {
                match self.work {
                    WorkState::Help => {},
                    WorkState::Dump { cpu, gpu } => {
                        if !cpu.finished() {
                            cpu.lemma_answer_lowers_bound(byte);
                        } else {
                            gpu.lemma_answer_lowers_bound(byte);
                        }
                    },
                    WorkState::Duty(change) => {
                        change.write.lemma_answer_lowers_bound(byte);
                    },
                }
            }
        }
    }
}

/// What a dump reports when its read of the GPU temperature ran as
/// `gpu`, after `cpu_temp` was read as the CPU temperature.
pub open spec fn dump_report(cpu_temp: u8, gpu: Run) -> Result<Report, Failure> {
    match gpu.result {
        Ok(()) => Ok(Report::Temperatures { cpu: cpu_temp, gpu: gpu.received }),
        Err(error) => Err(Failure::Timeout(error)),
    }
}

/// What the register work for `command` does once both ports are granted,
/// when the port reads find `replies`, starting with the reply number `at`.
///
/// A dump is one register read of the CPU temperature and, if that
/// succeeded, one of the GPU temperature, which finds the replies that the
/// first has left. A duty change is one fan duty change.
pub open spec fn work_script(command: EParsedArgs, replies: Replies, at: nat) -> SessionRun {
    match command {
        EParsedArgs::Help => SessionRun { trace: Seq::empty(), result: Ok(Report::Help) },
        EParsedArgs::Dump => {
            let cpu = State::begin(read_plan(EC_REG_CPU_TEMP)).run(replies, at);
            let gpu = State::begin(read_plan(EC_REG_GPU_TEMP)).run(replies, at + cpu.reads);
            match cpu.result {
                Err(error) => SessionRun {
                    trace: cpu.trace,
                    result: Err(Failure::Timeout(error)),
                },
                Ok(()) => SessionRun {
                    trace: cpu.trace + gpu.trace,
                    result: dump_report(cpu.received, gpu),
                },
            }
        },
        EParsedArgs::Duty(fan_duty) => {
            let change = FanDutyState::begin(fan_duty).run(replies, at);
            SessionRun { trace: change.trace, result: duty_report(fan_duty, change.result) }
        },
    }
}

/// What a session for `command` does, from its first request to its last,
/// when the operating system answers `codes`, starting with the code number
/// `asked`, and the port reads find `replies`, starting with the reply
/// number `at`.
///
/// The help text takes no request at all. Anything else starts with the
/// guard. If the guard is refused, the session ends with that refusal and
/// has issued what the guard issued, nothing more. Otherwise the register
/// work follows.
pub open spec fn session_script(
    command: EParsedArgs,
    codes: Codes,
    asked: nat,
    replies: Replies,
    at: nat,
) -> SessionRun {
    let guard = PortGuard::WantsStatus.run(codes, asked);
    let work = work_script(command, replies, at);
    if command is Help {
        work
    } else {
        match guard.result {
            Err(error) => SessionRun {
                trace: guard.trace,
                result: Err(Failure::Permission(error)),
            },
            Ok(()) => SessionRun { trace: guard.trace + work.trace, result: work.result },
        }
    }
}

/// With both ports granted and the CPU temperature read, a dump goes on as
/// its read of the GPU temperature does.
proof fn lemma_dump_reads_gpu(
    state: SessionState,
    codes: Codes,
    asked: nat,
    replies: Replies,
    at: nat,
)
    requires
        state.guard is Granted,
        state.work is Dump,
        state.work->cpu.finished(),
        state.work->cpu.failure is None,
    ensures
        state.run(codes, asked, replies, at) == (SessionRun {
            trace: state.work->gpu.run(replies, at).trace,
            result: dump_report(state.work->cpu.received, state.work->gpu.run(replies, at)),
        }),
    decreases state.work->gpu.bound(),
{
    let gpu = state.work->gpu;
    if let Action::Ask(request) = gpu.pending() {
        gpu.lemma_answer_lowers_bound(replies(at));
        let later = state.next(SessionState::reported(request, codes(asked), replies(at)));
        lemma_dump_reads_gpu(later, codes, asked, replies, at + reads_of(request));
    }
}

/// With both ports granted, a dump goes on as its read of the CPU
/// temperature does, and then, if that succeeded, as its read of the GPU
/// temperature.
proof fn lemma_dump_reads_cpu(
    state: SessionState,
    codes: Codes,
    asked: nat,
    replies: Replies,
    at: nat,
)
    requires
        state.guard is Granted,
        state.work is Dump,
    ensures
        ({
            let cpu = state.work->cpu.run(replies, at);
            let gpu = state.work->gpu.run(replies, at + cpu.reads);
            state.run(codes, asked, replies, at) == match cpu.result {
                Err(error) => SessionRun {
                    trace: cpu.trace,
                    result: Err(Failure::Timeout(error)),
                },
                Ok(()) => SessionRun {
                    trace: cpu.trace + gpu.trace,
                    result: dump_report(cpu.received, gpu),
                },
            }
        }),
    decreases state.work->cpu.bound(),
{
    let cpu = state.work->cpu;
    match cpu.pending() {
        Action::Ask(request) => {
            cpu.lemma_answer_lowers_bound(replies(at));
            let later = state.next(SessionState::reported(request, codes(asked), replies(at)));
            lemma_dump_reads_cpu(later, codes, asked, replies, at + reads_of(request));
            let rest = later.work->cpu.run(replies, at + reads_of(request));
            let whole = cpu.run(replies, at);
            assert(whole == rest.after(seq![request], reads_of(request)));
            if whole.result is Ok {
                let gpu = state.work->gpu.run(replies, at + whole.reads);
                assert(seq![request] + (rest.trace + gpu.trace) =~= whole.trace + gpu.trace);
            }
        },
        Action::Finish(Ok(())) => {
            lemma_dump_reads_gpu(state, codes, asked, replies, at);
            let gpu = state.work->gpu.run(replies, at);
            assert(Seq::<Request>::empty() + gpu.trace =~= gpu.trace);
        },
        Action::Finish(Err(error)) => {},
    }
}

/// With both ports granted, a duty change in a session goes on as the fan
/// duty change does.
proof fn lemma_session_changes_duty(
    state: SessionState,
    codes: Codes,
    asked: nat,
    replies: Replies,
    at: nat,
)
    requires
        state.guard is Granted,
        state.work is Duty,
    ensures
        ({
            let change = state.work->Duty_0;
            state.run(codes, asked, replies, at) == (SessionRun {
                trace: change.run(replies, at).trace,
                result: duty_report(change.fan_duty, change.run(replies, at).result),
            })
        }),
    decreases state.work->Duty_0.write.bound(),
{
    let change = state.work->Duty_0;
    if let Action::Ask(request) = change.pending() {
        change.write.lemma_answer_lowers_bound(replies(at));
        let later = state.next(SessionState::reported(request, codes(asked), replies(at)));
        lemma_session_changes_duty(later, codes, asked, replies, at + reads_of(request));
    }
}

/// With both ports granted, a session goes on as its register work does.
proof fn lemma_granted_session_works(
    command: EParsedArgs,
    codes: Codes,
    asked: nat,
    replies: Replies,
    at: nat,
)
    ensures
        (SessionState { guard: PortGuard::Granted, work: WorkState::begin(command) }).run(
            codes,
            asked,
            replies,
            at,
        ) == work_script(command, replies, at),
{
    let state = SessionState { guard: PortGuard::Granted, work: WorkState::begin(command) };
    match command {
        EParsedArgs::Help => {},
        EParsedArgs::Dump => {
            lemma_dump_reads_cpu(state, codes, asked, replies, at);
        },
        EParsedArgs::Duty(fan_duty) => {
            lemma_session_changes_duty(state, codes, asked, replies, at);
        },
    }
}

/// A session does what [`session_script`] says, whatever the operating
/// system answers and whatever the port reads find.
pub proof fn lemma_session_run(
    command: EParsedArgs,
    codes: Codes,
    asked: nat,
    replies: Replies,
    at: nat,
)
    ensures
        SessionState::begin(command).run(codes, asked, replies, at) == session_script(
            command,
            codes,
            asked,
            replies,
            at,
        ),
{
    let status = Request::Acquire(Port::Status);
    let data = Request::Acquire(Port::Data);
    let work = WorkState::begin(command);
    let fresh = SessionState::begin(command);
    lemma_guard_run(codes, asked);
    if !(command is Help) {
        let first = fresh.next(Event::Permission(codes(asked)));
        assert(fresh.run(codes, asked, replies, at).trace == seq![status] + first.run(
            codes,
            asked + 1,
            replies,
            at,
        ).trace);
        if codes(asked) != 0 {
            assert(seq![status] + Seq::<Request>::empty() =~= seq![status]);
        } else {
            let second = first.next(Event::Permission(codes(asked + 1)));
            assert(first.run(codes, asked + 1, replies, at).trace == seq![data] + second.run(
                codes,
                asked + 2,
                replies,
                at,
            ).trace);
            if codes(asked + 1) != 0 {
                assert(seq![status] + (seq![data] + Seq::<Request>::empty()) =~= seq![
                    status,
                    data,
                ]);
            } else {
                lemma_granted_session_works(command, codes, asked + 2, replies, at);
                let rest = work_script(command, replies, at);
                assert(seq![status] + (seq![data] + rest.trace) =~= seq![status, data]
                    + rest.trace);
            }
        }
    }
}

/// Once a port is refused, the session is over: it ends with the refusal
/// of the first port that was refused, and all it has issued are the
/// requests for access up to that one. No port is read or written, and
/// nothing sleeps.
pub proof fn lemma_refusal_ends_session(
    command: EParsedArgs,
    codes: Codes,
    asked: nat,
    replies: Replies,
    at: nat,
)
    requires
        !(command is Help),
        codes(asked) != 0 || codes(asked + 1) != 0,
    ensures
        SessionState::begin(command).run(codes, asked, replies, at) == if codes(asked) != 0 {
            SessionRun {
                trace: seq![Request::Acquire(Port::Status)],
                result: Err(
                    Failure::Permission(
                        PermissionError { port: Port::Status, code: codes(asked) },
                    ),
                ),
            }
        } else {
            SessionRun {
                trace: seq![
                    Request::Acquire(Port::Status),
                    Request::Acquire(Port::Data),
                ],
                result: Err(
                    Failure::Permission(
                        PermissionError { port: Port::Data, code: codes(asked + 1) },
                    ),
                ),
            }
        },
{
    lemma_session_run(command, codes, asked, replies, at);
    lemma_guard_run(codes, asked);
}

/// In every state of a session, a request that reads or writes a port, or
/// sleeps, is pending only if both ports were granted; and a session whose
/// guard was refused is finished with that refusal and stays so.
pub proof fn lemma_ports_wait_for_guard(state: SessionState, event: Event)
    ensures
        state.pending() matches Action::Ask(request) ==> request is Acquire
            || state.guard is Granted,
        !(state.work is Help) ==> (state.guard matches PortGuard::Denied(error) ==> state.pending()
            == Action::Finish(Err::<Report, Failure>(Failure::Permission(error))) && state.next(
            event,
        ) == state),
{
}

/// The register work of a session.
#[derive(Debug)]
enum Work {
    Help,
    Dump { cpu: RegisterRead, gpu: RegisterRead },
    Duty(FanDuty),
}

impl Work {
    spec fn state(self) -> WorkState {
        match self {
            Work::Help => WorkState::Help,
            Work::Dump { cpu, gpu } => WorkState::Dump { cpu: cpu@, gpu: gpu@ },
            Work::Duty(change) => WorkState::Duty(change@),
        }
    }
}

/// One run of the program.
#[derive(Debug)]
pub struct Session {
    guard: PortGuard,
    work: Work,
}

impl View for Session {
    type V = SessionState;

    closed spec fn view(&self) -> SessionState {
        SessionState { guard: self.guard, work: self.work.state() }
    }
}

impl Session {
    /// A session that will carry out `command`.
    pub fn new(command: EParsedArgs) -> (session: Session)
        ensures
            session@ == SessionState::begin(command),
    {
        let work = match command {
            EParsedArgs::Help => Work::Help,
            EParsedArgs::Dump => Work::Dump { cpu: get_cpu_temp(), gpu: get_gpu_temp() },
            EParsedArgs::Duty(fan_duty) => Work::Duty(set_fan_duty(fan_duty)),
        };
        Session { guard: fan_control_init(), work }
    }

    /// What is to be done next: a request for the driver, or nothing more,
    /// with the result.
    pub fn action(&self) -> (action: Action<Result<Report, Failure>>)
        ensures
            action == self@.pending(),
    {
        match &self.work {
            Work::Help => Action::Finish(Ok(Report::Help)),
            Work::Dump { cpu, gpu } => match self.guard.action() {
                Action::Ask(request) => Action::Ask(request),
                Action::Finish(Err(error)) => Action::Finish(Err(Failure::Permission(error))),
                Action::Finish(Ok(())) => match cpu.action() {
                    Action::Ask(request) => Action::Ask(request),
                    Action::Finish(Err(error)) => Action::Finish(Err(Failure::Timeout(error))),
                    Action::Finish(Ok(cpu_temp)) => match gpu.action() {
                        Action::Ask(request) => Action::Ask(request),
                        Action::Finish(Err(error)) => Action::Finish(
                            Err(Failure::Timeout(error)),
                        ),
                        Action::Finish(Ok(gpu_temp)) => Action::Finish(
                            Ok(Report::Temperatures { cpu: cpu_temp, gpu: gpu_temp }),
                        ),
                    },
                },
            },
            Work::Duty(change) => match self.guard.action() {
                Action::Ask(request) => Action::Ask(request),
                Action::Finish(Err(error)) => Action::Finish(Err(Failure::Permission(error))),
                Action::Finish(Ok(())) => match change.action() {
                    Action::Ask(request) => Action::Ask(request),
                    Action::Finish(Ok(())) => Action::Finish(
                        Ok(Report::FanDuty(change.fan_duty())),
                    ),
                    Action::Finish(Err(FanControlError::Validation(wrong))) => Action::Finish(
                        Err(Failure::Validation(wrong)),
                    ),
                    Action::Finish(Err(FanControlError::Timeout(error))) => Action::Finish(
                        Err(Failure::Timeout(error)),
                    ),
                },
            },
        }
    }

    /// Takes in what came of the last request.
    pub fn step(&mut self, event: Event)
        ensures
            final(self)@ == old(self)@.next(event),
    {
        if let Work::Help = self.work {
            return ;
        }
        match self.guard.action() {
            Action::Ask(_) => {
                self.guard.step(event);
            },
            Action::Finish(Err(_)) => {},
            Action::Finish(Ok(())) => match &mut self.work {
                Work::Help => {},
                Work::Dump { cpu, gpu } => match cpu.action() {
                    Action::Ask(_) => {
                        cpu.step(event);
                    },
                    Action::Finish(Ok(_)) => {
                        gpu.step(event);
                    },
                    Action::Finish(Err(_)) => {},
                },
                Work::Duty(change) => {
                    change.step(event);
                },
            },
        }
    }
}

} // verus!
