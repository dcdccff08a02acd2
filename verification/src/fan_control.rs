//! Register access: the handshake wait, register read and register write,
//! and on top of them the temperature sensors and the fan duty.
//!
//! Each function here returns a machine that has issued nothing yet. The
//! lemmas after it say what the machine will issue, for every stream of
//! bytes that the ports may give.

use vstd::prelude::*;
use crate::duty::{duty_byte, duty_in_range, spec_duty_byte, spec_duty_in_range};
use crate::guard::PortGuard;
use crate::machine::{performed, reads_of, Action, Event, Replies, Request};
use crate::ports::{Port, StatusFlag};
use crate::script::{
    keeps_to_ports,
    lemma_misses,
    lemma_probes,
    lemma_run_follows_script,
    lemma_transfers_follow_plan,
    misses,
    plan_transfers,
    probes,
    script_run,
    transfers,
};
use crate::transaction::{
    plan_cost,
    Run,
    Stage,
    State,
    TimeoutError,
    Transaction,
    RETRY_BUDGET,
};

verus! {

/// Command that selects the controller's register read.
pub const EC_SC_READ_CMD: u8 = 0x80;

/// Register that holds the CPU temperature.
pub const EC_REG_CPU_TEMP: u8 = 0x07;

/// Register that holds the GPU temperature.
pub const EC_REG_GPU_TEMP: u8 = 0xCD;

/// Command that selects the controller's fan write.
pub const EC_SC_FAN_CMD: u8 = 0x99;

/// Selector of the fan duty within the fan write.
pub const EC_FAN_DUTY_PORT: u8 = 0x01;

/// The wait that precedes every byte sent to the controller: the input
/// buffer has been emptied.
pub open spec fn input_buffer_empty() -> Stage {
    Stage::Await { port: Port::Status, flag: StatusFlag::InputBufferFull, expected: false }
}

/// The wait that precedes the byte taken from the controller: the output
/// buffer has been filled.
pub open spec fn output_buffer_full() -> Stage {
    Stage::Await { port: Port::Status, flag: StatusFlag::OutputBufferFull, expected: true }
}

/// The plan of a lone handshake wait.
pub open spec fn wait_plan(port: Port, flag: StatusFlag, value: bool) -> Seq<Stage> {
    seq![Stage::Await { port, flag, expected: value }]
}

/// The plan of a register read: the read command to the status port, the
/// register's address to the data port, then the register's byte from the
/// data port, each after its wait.
pub open spec fn read_plan(read_port: u8) -> Seq<Stage> {
    seq![
        input_buffer_empty(),
        Stage::Send { port: Port::Status, value: EC_SC_READ_CMD },
        input_buffer_empty(),
        Stage::Send { port: Port::Data, value: read_port },
        output_buffer_full(),
        Stage::Receive { port: Port::Data },
    ]
}

/// The plan of a register write: the command to the status port, the
/// address and the value to the data port, each after its wait, and a last
/// wait for the controller to take the value in.
pub open spec fn write_plan(cmd: u8, port: u8, value: u8) -> Seq<Stage> {
    seq![
        input_buffer_empty(),
        Stage::Send { port: Port::Status, value: cmd },
        input_buffer_empty(),
        Stage::Send { port: Port::Data, value: port },
        input_buffer_empty(),
        Stage::Send { port: Port::Data, value },
        input_buffer_empty(),
    ]
}

/// Starts a handshake wait: the status byte of `port` is probed until
/// `flag` shows `value`, within the retry budget.
pub fn sysio_wait(port: Port, flag: StatusFlag, value: bool) -> (wait: Transaction)
    ensures
        wait@ == State::begin(wait_plan(port, flag, value)),
{
    let plan = vec![Stage::Await { port, flag, expected: value }];
    assert(plan@ =~= wait_plan(port, flag, value));
    Transaction::new(plan)
}

/// The whole of what a handshake wait does. If one of the first
/// `RETRY_BUDGET + 1` status bytes shows the flag as expected, the wait
/// probes up to and including that byte, sleeps between the probes, and
/// succeeds. Otherwise it gives up after that many probes and reports the
/// last status byte.
pub proof fn lemma_wait_run(port: Port, flag: StatusFlag, value: bool, replies: Replies, at: nat)
    ensures
        ({
            let missed = misses(flag, value, replies, at, RETRY_BUDGET as nat + 1);
            State::begin(wait_plan(port, flag, value)).run(replies, at) == if missed
                <= RETRY_BUDGET {
                Run {
                    trace: probes(port, missed),
                    reads: missed + 1,
                    result: Ok(()),
                    stage: 1,
                    received: 0,
                }
            } else {
                Run {
                    trace: probes(port, RETRY_BUDGET as nat),
                    reads: RETRY_BUDGET as nat + 1,
                    result: Err(
                        TimeoutError {
                            port,
                            flag,
                            expected: value,
                            status: replies(at + RETRY_BUDGET as nat),
                        },
                    ),
                    stage: 0,
                    received: 0,
                }
            }
        }),
{
    let plan = wait_plan(port, flag, value);
    let missed = misses(flag, value, replies, at, RETRY_BUDGET as nat + 1);
    lemma_run_follows_script(plan, 0, 0, replies, at);
    if missed <= RETRY_BUDGET {
        let rest = script_run(plan, 1, 0, replies, at + missed + 1);
        assert(script_run(plan, 0, 0, replies, at) == rest.after(probes(port, missed), missed + 1));
        assert(probes(port, missed) + rest.trace =~= probes(port, missed));
    }
}

/// A wait whose first probe finds the flag as expected issues that one read
/// and succeeds: it does not sleep and does not probe again.
pub proof fn lemma_wait_returns_at_once(
    port: Port,
    flag: StatusFlag,
    value: bool,
    replies: Replies,
    at: nat,
)
    requires
        flag.shows(replies(at), value),
    ensures
        State::begin(wait_plan(port, flag, value)).run(replies, at) == (Run {
            trace: seq![Request::Read(port)],
            reads: 1,
            result: Ok(()),
            stage: 1,
            received: 0,
        }),
{
    lemma_wait_run(port, flag, value, replies, at);
}

/// A wait that never finds the flag as expected gives up after exactly
/// `RETRY_BUDGET + 1` probes with `RETRY_BUDGET` sleeps between them, and
/// reports the status byte of the last probe.
pub proof fn lemma_wait_times_out(
    port: Port,
    flag: StatusFlag,
    value: bool,
    replies: Replies,
    at: nat,
)
    requires
        forall|i: nat| i <= RETRY_BUDGET ==> !flag.shows(#[trigger] replies(at + i), value),
    ensures
        ({
            let run = State::begin(wait_plan(port, flag, value)).run(replies, at);
            &&& run.result == Err::<(), TimeoutError>(
                TimeoutError {
                    port,
                    flag,
                    expected: value,
                    status: replies(at + RETRY_BUDGET as nat),
                },
            )
            &&& run.trace == probes(port, RETRY_BUDGET as nat)
            &&& run.trace.len() == 2 * RETRY_BUDGET + 1
            &&& run.reads == RETRY_BUDGET + 1
        }),
{
    lemma_wait_run(port, flag, value, replies, at);
    lemma_misses(flag, value, replies, at, RETRY_BUDGET as nat + 1);
    lemma_probes(port, RETRY_BUDGET as nat);
}

/// A register read under way.
#[derive(Debug)]
pub struct RegisterRead {
    exchange: Transaction,
}

impl View for RegisterRead {
    type V = State;

    closed spec fn view(&self) -> State {
        self.exchange@
    }
}

/// The result of a register read that ran as `run`: the byte received, or
/// the timeout.
pub open spec fn read_result(run: Run) -> Result<u8, TimeoutError> {
    match run.result {
        Ok(()) => Ok(run.received),
        Err(error) => Err(error),
    }
}

/// What a register read in state `state` wants next.
pub open spec fn read_pending(state: State) -> Action<Result<u8, TimeoutError>> {
    match state.pending() {
        Action::Ask(request) => Action::Ask(request),
        Action::Finish(Ok(())) => Action::Finish(Ok(state.received)),
        Action::Finish(Err(error)) => Action::Finish(Err(error)),
    }
}

impl RegisterRead {
    /// What is to be done next: a request for the driver, or nothing more,
    /// with the register's byte or the timeout.
    pub fn action(&self) -> (action: Action<Result<u8, TimeoutError>>)
        ensures
            action == read_pending(self@),
    {
        match self.exchange.action() {
            Action::Ask(request) => Action::Ask(request),
            Action::Finish(Ok(())) => Action::Finish(Ok(self.exchange.received())),
            Action::Finish(Err(error)) => Action::Finish(Err(error)),
        }
    }

    /// Takes in what came of the last request.
    pub fn step(&mut self, event: Event)
        ensures
            final(self)@ == old(self)@.next(event),
    {
        self.exchange.step(event);
    }
}

/// Starts a read of the register `read_port`.
pub fn sysio_read(read_port: u8) -> (read: RegisterRead)
    ensures
        read@ == State::begin(read_plan(read_port)),
{
    let idle = Stage::Await {
        port: Port::Status,
        flag: StatusFlag::InputBufferFull,
        expected: false,
    };
    let filled = Stage::Await {
        port: Port::Status,
        flag: StatusFlag::OutputBufferFull,
        expected: true,
    };
    let plan = vec![
        idle,
        Stage::Send { port: Port::Status, value: EC_SC_READ_CMD },
        idle,
        Stage::Send { port: Port::Data, value: read_port },
        filled,
        Stage::Receive { port: Port::Data },
    ];
    assert(plan@ =~= read_plan(read_port));
    RegisterRead { exchange: Transaction::new(plan) }
}

/// How many probes in a row miss in a wait for the input buffer to be
/// emptied that starts at the reply number `at`, among as many as a wait
/// makes.
pub open spec fn busy(replies: Replies, at: nat) -> nat {
    misses(StatusFlag::InputBufferFull, false, replies, at, RETRY_BUDGET as nat + 1)
}

/// How many probes in a row miss in a wait for the output buffer to be
/// filled that starts at the reply number `at`, among as many as a wait
/// makes.
pub open spec fn vacant(replies: Replies, at: nat) -> nat {
    misses(StatusFlag::OutputBufferFull, true, replies, at, RETRY_BUDGET as nat + 1)
}

/// The stages of a register read, one by one.
proof fn lemma_read_plan(read_port: u8)
    ensures
        read_plan(read_port).len() == 6,
        read_plan(read_port)[0] == input_buffer_empty(),
        read_plan(read_port)[1] == (Stage::Send { port: Port::Status, value: EC_SC_READ_CMD }),
        read_plan(read_port)[2] == input_buffer_empty(),
        read_plan(read_port)[3] == (Stage::Send { port: Port::Data, value: read_port }),
        read_plan(read_port)[4] == output_buffer_full(),
        read_plan(read_port)[5] == (Stage::Receive { port: Port::Data }),
        keeps_to_ports(read_plan(read_port)),
{
}

/// Six traces in a row, however they are bracketed.
proof fn lemma_six_in_a_row(
    a: Seq<Request>,
    b: Seq<Request>,
    c: Seq<Request>,
    d: Seq<Request>,
    e: Seq<Request>,
    f: Seq<Request>,
)
    ensures
        a + (b + (c + (d + (e + (f + Seq::<Request>::empty()))))) == a + b + c + d + e + f,
{
    assert(a + (b + (c + (d + (e + (f + Seq::<Request>::empty()))))) =~= a + b + c + d + e + f);
}

/// A register read does what its plan says, for every stream of bytes.
///
/// It succeeds exactly when none of its three waits runs out of retries.
/// It then has issued, in this order and with nothing else: the first wait,
/// the read command to the status port, the second wait, the register's
/// address to the data port, the third wait, and one read of the data port.
/// The byte that this read found is the result, as it came.
pub proof fn lemma_read_run(read_port: u8, replies: Replies, at: nat)
    ensures
        ({
            let run = State::begin(read_plan(read_port)).run(replies, at);
            let first = busy(replies, at);
            let second = busy(replies, at + first + 1);
            let third = vacant(replies, at + first + second + 2);
            let found = replies(at + first + second + third + 3);
            &&& run == script_run(read_plan(read_port), 0, 0, replies, at)
            &&& run.result is Ok <==> first <= RETRY_BUDGET && second <= RETRY_BUDGET && third
                <= RETRY_BUDGET
            &&& run.result is Ok ==> {
                &&& run.trace == probes(Port::Status, first) + seq![
                    Request::Write(Port::Status, EC_SC_READ_CMD),
                ] + probes(Port::Status, second) + seq![Request::Write(Port::Data, read_port)]
                    + probes(Port::Status, third) + seq![Request::Read(Port::Data)]
                &&& run.reads == first + second + third + 4
                &&& read_result(run) == Ok::<u8, TimeoutError>(found)
            }
        }),
{
    let plan = read_plan(read_port);
    let first = busy(replies, at);
    let second = busy(replies, at + first + 1);
    let third = vacant(replies, at + first + second + 2);
    let found = replies(at + first + second + third + 3);
    let command = seq![Request::Write(Port::Status, EC_SC_READ_CMD)];
    let address = seq![Request::Write(Port::Data, read_port)];
    let fetch = seq![Request::Read(Port::Data)];
    lemma_read_plan(read_port);
    lemma_run_follows_script(plan, 0, 0, replies, at);
    let run0 = script_run(plan, 0, 0, replies, at);
    if first <= RETRY_BUDGET {
        let run1 = script_run(plan, 1, 0, replies, at + first + 1);
        let run2 = script_run(plan, 2, 0, replies, at + first + 1);
        assert(run0 == run1.after(probes(Port::Status, first), first + 1));
        assert(run1 == run2.after(command, 0));
        if second <= RETRY_BUDGET {
            let run3 = script_run(plan, 3, 0, replies, at + first + second + 2);
            let run4 = script_run(plan, 4, 0, replies, at + first + second + 2);
            assert(run2 == run3.after(probes(Port::Status, second), second + 1));
            assert(run3 == run4.after(address, 0));
            if third <= RETRY_BUDGET {
                let run5 = script_run(plan, 5, 0, replies, at + first + second + third + 3);
                let run6 = script_run(plan, 6, found, replies, at + first + second + third + 4);
                assert(run4 == run5.after(probes(Port::Status, third), third + 1));
                assert(run5 == run6.after(fetch, 1));
                assert(run6.trace == Seq::<Request>::empty());
                lemma_six_in_a_row(
                    probes(Port::Status, first),
                    command,
                    probes(Port::Status, second),
                    address,
                    probes(Port::Status, third),
                    fetch,
                );
            }
        }
    }
}

/// The bytes that the stages of a register read move, up to each of its
/// waits and up to its end.
proof fn lemma_read_plan_transfers(read_port: u8)
    ensures
        ({
            let plan = read_plan(read_port);
            let command = Request::Write(Port::Status, EC_SC_READ_CMD);
            let address = Request::Write(Port::Data, read_port);
            let fetch = Request::Read(Port::Data);
            &&& plan_transfers(plan, 0, 0) == Seq::<Request>::empty()
            &&& plan_transfers(plan, 0, 2) == seq![command]
            &&& plan_transfers(plan, 0, 4) == seq![command, address]
            &&& plan_transfers(plan, 0, 6) == seq![command, address, fetch]
        }),
{
    let plan = read_plan(read_port);
    let command = Request::Write(Port::Status, EC_SC_READ_CMD);
    let address = Request::Write(Port::Data, read_port);
    let fetch = Request::Read(Port::Data);
    lemma_read_plan(read_port);
    reveal_with_fuel(plan_transfers, 7);
    assert(plan_transfers(plan, 0, 2) =~= seq![command]);
    assert(plan_transfers(plan, 0, 4) =~= seq![command, address]);
    assert(plan_transfers(plan, 0, 6) =~= seq![command, address, fetch]);
}

/// A register read moves its bytes in one fixed order: the read command to
/// the status port, the register's address to the data port, the register's
/// byte from the data port. It moves all three exactly when it succeeds. If
/// a wait times out, it has moved the bytes before that wait and none
/// after.
pub proof fn lemma_read_order(read_port: u8, replies: Replies, at: nat)
    ensures
        ({
            let run = State::begin(read_plan(read_port)).run(replies, at);
            let command = Request::Write(Port::Status, EC_SC_READ_CMD);
            let address = Request::Write(Port::Data, read_port);
            let fetch = Request::Read(Port::Data);
            &&& run.result is Ok <==> transfers(run.trace) == seq![command, address, fetch]
            &&& run.result is Err ==> run.stage == 0 || run.stage == 2 || run.stage == 4
            &&& run.stage == 0 ==> transfers(run.trace) == Seq::<Request>::empty()
            &&& run.stage == 2 ==> transfers(run.trace) == seq![command]
            &&& run.stage == 4 ==> transfers(run.trace) == seq![command, address]
        }),
{
    let plan = read_plan(read_port);
    let command = Request::Write(Port::Status, EC_SC_READ_CMD);
    let address = Request::Write(Port::Data, read_port);
    let fetch = Request::Read(Port::Data);
    lemma_read_plan(read_port);
    lemma_run_follows_script(plan, 0, 0, replies, at);
    lemma_transfers_follow_plan(plan, 0, 0, replies, at);
    lemma_read_plan_transfers(read_port);
    assert(seq![command, address, fetch].len() == 3);
    assert(seq![command, address].len() == 2);
    assert(seq![command].len() == 1);
}

/// Starts a write of `value` to `port`, under the command `cmd`.
pub fn sysio_write(cmd: u8, port: u8, value: u8) -> (write: Transaction)
    ensures
        write@ == State::begin(write_plan(cmd, port, value)),
{
    let idle = Stage::Await {
        port: Port::Status,
        flag: StatusFlag::InputBufferFull,
        expected: false,
    };
    let plan = vec![
        idle,
        Stage::Send { port: Port::Status, value: cmd },
        idle,
        Stage::Send { port: Port::Data, value: port },
        idle,
        Stage::Send { port: Port::Data, value },
        idle,
    ];
    assert(plan@ =~= write_plan(cmd, port, value));
    Transaction::new(plan)
}

/// The stages of a register write, one by one.
proof fn lemma_write_plan(cmd: u8, port: u8, value: u8)
    ensures
        write_plan(cmd, port, value).len() == 7,
        write_plan(cmd, port, value)[0] == input_buffer_empty(),
        write_plan(cmd, port, value)[1] == (Stage::Send { port: Port::Status, value: cmd }),
        write_plan(cmd, port, value)[2] == input_buffer_empty(),
        write_plan(cmd, port, value)[3] == (Stage::Send { port: Port::Data, value: port }),
        write_plan(cmd, port, value)[4] == input_buffer_empty(),
        write_plan(cmd, port, value)[5] == (Stage::Send { port: Port::Data, value }),
        write_plan(cmd, port, value)[6] == input_buffer_empty(),
        keeps_to_ports(write_plan(cmd, port, value)),
{
}

/// Seven traces in a row, however they are bracketed.
proof fn lemma_seven_in_a_row(
    a: Seq<Request>,
    b: Seq<Request>,
    c: Seq<Request>,
    d: Seq<Request>,
    e: Seq<Request>,
    f: Seq<Request>,
    g: Seq<Request>,
)
    ensures
        a + (b + (c + (d + (e + (f + (g + Seq::<Request>::empty())))))) == a + b + c + d + e + f
            + g,
{
    assert(a + (b + (c + (d + (e + (f + (g + Seq::<Request>::empty())))))) =~= a + b + c + d + e
        + f + g);
}

/// A register write does what its plan says, for every stream of bytes.
///
/// It succeeds exactly when none of its four waits runs out of retries. It
/// then has issued, in this order and with nothing else: the first wait,
/// the command to the status port, the second wait, the address to the data
/// port, the third wait, the value to the data port, and the last wait, in
/// which the controller takes the value in.
pub proof fn lemma_write_run(cmd: u8, port: u8, value: u8, replies: Replies, at: nat)
    ensures
        ({
            let run = State::begin(write_plan(cmd, port, value)).run(replies, at);
            let first = busy(replies, at);
            let second = busy(replies, at + first + 1);
            let third = busy(replies, at + first + second + 2);
            let fourth = busy(replies, at + first + second + third + 3);
            &&& run == script_run(write_plan(cmd, port, value), 0, 0, replies, at)
            &&& run.result is Ok <==> first <= RETRY_BUDGET && second <= RETRY_BUDGET && third
                <= RETRY_BUDGET && fourth <= RETRY_BUDGET
            &&& run.result is Ok ==> {
                &&& run.trace == probes(Port::Status, first) + seq![
                    Request::Write(Port::Status, cmd),
                ] + probes(Port::Status, second) + seq![Request::Write(Port::Data, port)] + probes(
                    Port::Status,
                    third,
                ) + seq![Request::Write(Port::Data, value)] + probes(Port::Status, fourth)
                &&& run.reads == first + second + third + fourth + 4
            }
        }),
{
    let plan = write_plan(cmd, port, value);
    let first = busy(replies, at);
    let second = busy(replies, at + first + 1);
    let third = busy(replies, at + first + second + 2);
    let fourth = busy(replies, at + first + second + third + 3);
    let command = seq![Request::Write(Port::Status, cmd)];
    let address = seq![Request::Write(Port::Data, port)];
    let payload = seq![Request::Write(Port::Data, value)];
    lemma_write_plan(cmd, port, value);
    lemma_run_follows_script(plan, 0, 0, replies, at);
    let run0 = script_run(plan, 0, 0, replies, at);
    if first <= RETRY_BUDGET {
        let run1 = script_run(plan, 1, 0, replies, at + first + 1);
        let run2 = script_run(plan, 2, 0, replies, at + first + 1);
        assert(run0 == run1.after(probes(Port::Status, first), first + 1));
        assert(run1 == run2.after(command, 0));
        if second <= RETRY_BUDGET {
            let run3 = script_run(plan, 3, 0, replies, at + first + second + 2);
            let run4 = script_run(plan, 4, 0, replies, at + first + second + 2);
            assert(run2 == run3.after(probes(Port::Status, second), second + 1));
            assert(run3 == run4.after(address, 0));
            if third <= RETRY_BUDGET {
                let run5 = script_run(plan, 5, 0, replies, at + first + second + third + 3);
                let run6 = script_run(plan, 6, 0, replies, at + first + second + third + 3);
                assert(run4 == run5.after(probes(Port::Status, third), third + 1));
                assert(run5 == run6.after(payload, 0));
                if fourth <= RETRY_BUDGET {
                    let run7 = script_run(
                        plan,
                        7,
                        0,
                        replies,
                        at + first + second + third + fourth + 4,
                    );
                    assert(run6 == run7.after(probes(Port::Status, fourth), fourth + 1));
                    assert(run7.trace == Seq::<Request>::empty());
                    lemma_seven_in_a_row(
                        probes(Port::Status, first),
                        command,
                        probes(Port::Status, second),
                        address,
                        probes(Port::Status, third),
                        payload,
                        probes(Port::Status, fourth),
                    );
                }
            }
        }
    }
}

/// The bytes that the stages of a register write move, up to each of its
/// waits and up to its end.
proof fn lemma_write_plan_transfers(cmd: u8, port: u8, value: u8)
    ensures
        ({
            let plan = write_plan(cmd, port, value);
            let command = Request::Write(Port::Status, cmd);
            let address = Request::Write(Port::Data, port);
            let payload = Request::Write(Port::Data, value);
            &&& plan_transfers(plan, 0, 0) == Seq::<Request>::empty()
            &&& plan_transfers(plan, 0, 2) == seq![command]
            &&& plan_transfers(plan, 0, 4) == seq![command, address]
            &&& plan_transfers(plan, 0, 6) == seq![command, address, payload]
            &&& plan_transfers(plan, 0, 7) == seq![command, address, payload]
        }),
{
    let plan = write_plan(cmd, port, value);
    let command = Request::Write(Port::Status, cmd);
    let address = Request::Write(Port::Data, port);
    let payload = Request::Write(Port::Data, value);
    lemma_write_plan(cmd, port, value);
    reveal_with_fuel(plan_transfers, 8);
    assert(plan_transfers(plan, 0, 2) =~= seq![command]);
    assert(plan_transfers(plan, 0, 4) =~= seq![command, address]);
    assert(plan_transfers(plan, 0, 6) =~= seq![command, address, payload]);
    assert(plan_transfers(plan, 0, 7) =~= seq![command, address, payload]);
}

/// A register write moves its bytes in one fixed order: the command to the
/// status port, the address to the data port, the value to the data port.
/// It has moved all three when it succeeds. If a wait times out, it has
/// moved the bytes before that wait and none after; the last wait comes
/// after all three.
pub proof fn lemma_write_order(cmd: u8, port: u8, value: u8, replies: Replies, at: nat)
    ensures
        ({
            let run = State::begin(write_plan(cmd, port, value)).run(replies, at);
            let command = Request::Write(Port::Status, cmd);
            let address = Request::Write(Port::Data, port);
            let payload = Request::Write(Port::Data, value);
            &&& run.result is Ok <==> run.stage == 7
            &&& run.result is Err ==> run.stage == 0 || run.stage == 2 || run.stage == 4
                || run.stage == 6
            &&& run.stage == 0 ==> transfers(run.trace) == Seq::<Request>::empty()
            &&& run.stage == 2 ==> transfers(run.trace) == seq![command]
            &&& run.stage == 4 ==> transfers(run.trace) == seq![command, address]
            &&& run.stage >= 6 ==> transfers(run.trace) == seq![command, address, payload]
        }),
{
    let plan = write_plan(cmd, port, value);
    lemma_write_plan(cmd, port, value);
    lemma_run_follows_script(plan, 0, 0, replies, at);
    lemma_transfers_follow_plan(plan, 0, 0, replies, at);
    lemma_write_plan_transfers(cmd, port, value);
}

/// Starts a read of the GPU temperature, in degrees Celsius.
pub fn get_gpu_temp() -> (read: RegisterRead)
    ensures
        read@ == State::begin(read_plan(EC_REG_GPU_TEMP)),
{
    sysio_read(EC_REG_GPU_TEMP)
}

/// Starts a read of the CPU temperature, in degrees Celsius.
pub fn get_cpu_temp() -> (read: RegisterRead)
    ensures
        read@ == State::begin(read_plan(EC_REG_CPU_TEMP)),
{
    sysio_read(EC_REG_CPU_TEMP)
}

/// Reading a temperature is one register read of the sensor's register,
/// and the temperature is the byte that the controller gave, unchanged.
///
/// A read that succeeds has moved three bytes: the read command, the
/// address of the sensor's register, `0x07` for the CPU and `0xCD` for the
/// GPU, and the one byte taken from the data port. That byte, the last
/// reply that the read has used, is the result.
pub proof fn lemma_temperature_is_the_byte_read(replies: Replies, at: nat)
    ensures
        ({
            let cpu = State::begin(read_plan(EC_REG_CPU_TEMP)).run(replies, at);
            let gpu = State::begin(read_plan(EC_REG_GPU_TEMP)).run(replies, at);
            let command = Request::Write(Port::Status, EC_SC_READ_CMD);
            let fetch = Request::Read(Port::Data);
            &&& cpu.result is Ok ==> {
                &&& transfers(cpu.trace) == seq![
                    command,
                    Request::Write(Port::Data, EC_REG_CPU_TEMP),
                    fetch,
                ]
                &&& cpu.reads >= 1
                &&& read_result(cpu) == Ok::<u8, TimeoutError>(
                    replies((at + cpu.reads - 1) as nat),
                )
            }
            &&& gpu.result is Ok ==> {
                &&& transfers(gpu.trace) == seq![
                    command,
                    Request::Write(Port::Data, EC_REG_GPU_TEMP),
                    fetch,
                ]
                &&& gpu.reads >= 1
                &&& read_result(gpu) == Ok::<u8, TimeoutError>(
                    replies((at + gpu.reads - 1) as nat),
                )
            }
        }),
{
    lemma_read_run(EC_REG_CPU_TEMP, replies, at);
    lemma_read_order(EC_REG_CPU_TEMP, replies, at);
    lemma_read_run(EC_REG_GPU_TEMP, replies, at);
    lemma_read_order(EC_REG_GPU_TEMP, replies, at);
}

/// Register access ends, whatever the controller does: a wait issues at
/// most 201 requests, a register read at most 606 and a register write at
/// most 807.
pub proof fn lemma_register_access_is_bounded(
    port: Port,
    flag: StatusFlag,
    value: bool,
    read_port: u8,
    cmd: u8,
    data: u8,
    replies: Replies,
    at: nat,
)
    ensures
        State::begin(wait_plan(port, flag, value)).run(replies, at).trace.len() <= 2
            * RETRY_BUDGET + 1,
        State::begin(read_plan(read_port)).run(replies, at).trace.len() <= 3 * (2 * RETRY_BUDGET
            + 1) + 3,
        State::begin(write_plan(cmd, read_port, data)).run(replies, at).trace.len() <= 4 * (2
            * RETRY_BUDGET + 1) + 3,
{
    let wait = State::begin(wait_plan(port, flag, value));
    let read = State::begin(read_plan(read_port));
    let write = State::begin(write_plan(cmd, read_port, data));
    lemma_read_plan(read_port);
    lemma_write_plan(cmd, read_port, data);
    wait.lemma_run_is_bounded(replies, at);
    read.lemma_run_is_bounded(replies, at);
    write.lemma_run_is_bounded(replies, at);
    reveal_with_fuel(plan_cost, 8);
}

/// Why a fan duty was not applied.
#[derive(Clone, Copy, Debug, PartialEq, Eq, Structural)]
pub enum FanControlError {
    /// The duty asked for, given here, is outside the range from
    /// [`MIN_FAN_DUTY`](crate::duty::MIN_FAN_DUTY) to
    /// [`MAX_FAN_DUTY`](crate::duty::MAX_FAN_DUTY). Nothing was sent.
    Validation(u8),
    /// A wait of the register write timed out.
    Timeout(TimeoutError),
}

/// The mathematical state of a fan duty change.
pub struct FanDutyState {
    /// The duty asked for, in percent.
    pub fan_duty: u8,
    /// The register write that applies it. Not used if the duty is out of
    /// range.
    pub write: State,
}

/// What an observer sees of a fan duty change that is driven to its end.
pub struct FanDutyRun {
    /// The requests issued, in order.
    pub trace: Seq<Request>,
    /// The result the change finished with.
    pub result: Result<(), FanControlError>,
}

/// The result of a fan duty change whose register write finished with
/// `result`.
pub open spec fn fan_duty_result(result: Result<(), TimeoutError>) -> Result<
    (),
    FanControlError,
> {
    match result {
        Ok(()) => Ok(()),
        Err(error) => Err(FanControlError::Timeout(error)),
    }
}

impl FanDutyState {
    /// The state of a change to `fan_duty` percent that has not begun.
    pub open spec fn begin(fan_duty: u8) -> FanDutyState {
        FanDutyState {
            fan_duty,
            write: State::begin(
                if spec_duty_in_range(fan_duty) {
                    write_plan(EC_SC_FAN_CMD, EC_FAN_DUTY_PORT, spec_duty_byte(fan_duty) as u8)
                } else {
                    Seq::empty()
                },
            ),
        }
    }

    /// What the change wants next. A duty out of range is refused at once.
    pub open spec fn pending(self) -> Action<Result<(), FanControlError>> {
        if !spec_duty_in_range(self.fan_duty) {
            Action::Finish(Err(FanControlError::Validation(self.fan_duty)))
        } else {
            match self.write.pending() {
                Action::Ask(request) => Action::Ask(request),
                Action::Finish(result) => Action::Finish(fan_duty_result(result)),
            }
        }
    }

    /// The state after `event`.
    pub open spec fn next(self, event: Event) -> FanDutyState {
        if !spec_duty_in_range(self.fan_duty) {
            self
        } else {
            FanDutyState { write: self.write.next(event), ..self }
        }
    }

    /// The change driven to its end from this state, when the port reads
    /// find `replies`, starting with the reply number `at`.
    pub open spec fn run(self, replies: Replies, at: nat) -> FanDutyRun
        decreases self.write.bound(),
    {
        match self.pending() {
            Action::Finish(result) => FanDutyRun { trace: Seq::empty(), result },
            Action::Ask(request) => {
                proof {
                    self.write.lemma_answer_lowers_bound(replies(at));
                }
                let rest = self.next(performed(request, replies(at))).run(
                    replies,
                    at + reads_of(request),
                );
                FanDutyRun { trace: seq![request] + rest.trace, result: rest.result }
            },
        }
    }
}

/// A fan duty change under way.
#[derive(Debug)]
pub struct FanDuty {
    fan_duty: u8,
    write: Transaction,
}

impl View for FanDuty {
    type V = FanDutyState;

    closed spec fn view(&self) -> FanDutyState {
        FanDutyState { fan_duty: self.fan_duty, write: self.write@ }
    }
}

impl FanDuty {
    /// What is to be done next: a request for the driver, or nothing more,
    /// with the result.
    pub fn action(&self) -> (action: Action<Result<(), FanControlError>>)
        ensures
            action == self@.pending(),
    {
        if !duty_in_range(self.fan_duty) {
            Action::Finish(Err(FanControlError::Validation(self.fan_duty)))
        } else {
            match self.write.action() {
                Action::Ask(request) => Action::Ask(request),
                Action::Finish(Ok(())) => Action::Finish(Ok(())),
                Action::Finish(Err(error)) => Action::Finish(Err(FanControlError::Timeout(error))),
            }
        }
    }

    /// Takes in what came of the last request.
    pub fn step(&mut self, event: Event)
        ensures
            final(self)@ == old(self)@.next(event),
    {
        if duty_in_range(self.fan_duty) {
            self.write.step(event);
        }
    }

    /// The duty asked for, in percent.
    pub fn fan_duty(&self) -> (fan_duty: u8)
        ensures
            fan_duty == self@.fan_duty,
    {
        self.fan_duty
    }
}

/// Starts a change of the fan duty to `fan_duty` percent.
///
/// A duty out of range is refused: the machine returned is finished, with
/// [`FanControlError::Validation`]. Otherwise it writes the duty's byte to
/// the fan duty register.
pub fn set_fan_duty(fan_duty: u8) -> (change: FanDuty)
    ensures
        change@ == FanDutyState::begin(fan_duty),
{
    if duty_in_range(fan_duty) {
        FanDuty {
            fan_duty,
            write: sysio_write(EC_SC_FAN_CMD, EC_FAN_DUTY_PORT, duty_byte(fan_duty)),
        }
    } else {
        FanDuty { fan_duty, write: Transaction::new(Vec::new()) }
    }
}

/// A fan duty change in range runs as its register write does, and a
/// timeout of the write comes out as it is.
proof fn lemma_change_runs_as_write(state: FanDutyState, replies: Replies, at: nat)
    requires
        spec_duty_in_range(state.fan_duty),
    ensures
        state.run(replies, at) == (FanDutyRun {
            trace: state.write.run(replies, at).trace,
            result: fan_duty_result(state.write.run(replies, at).result),
        }),
    decreases state.write.bound(),
{
    match state.write.pending() {
        Action::Finish(result) => {},
        Action::Ask(request) => {
            state.write.lemma_answer_lowers_bound(replies(at));
            lemma_change_runs_as_write(
                state.next(performed(request, replies(at))),
                replies,
                at + reads_of(request),
            );
        },
    }
}

/// The whole of what a fan duty change does.
///
/// A duty out of range is refused with nothing issued: no port is written,
/// no port is read. A duty in range is applied by one register write of the
/// duty's byte to the fan duty register, and the change ends as that write
/// ends.
pub proof fn lemma_fan_duty_run(fan_duty: u8, replies: Replies, at: nat)
    ensures
        FanDutyState::begin(fan_duty).run(replies, at) == if !spec_duty_in_range(fan_duty) {
            FanDutyRun {
                trace: Seq::empty(),
                result: Err(FanControlError::Validation(fan_duty)),
            }
        } else {
            let write = State::begin(
                write_plan(EC_SC_FAN_CMD, EC_FAN_DUTY_PORT, spec_duty_byte(fan_duty) as u8),
            ).run(replies, at);
            FanDutyRun { trace: write.trace, result: fan_duty_result(write.result) }
        },
{
    if spec_duty_in_range(fan_duty) {
        lemma_change_runs_as_write(FanDutyState::begin(fan_duty), replies, at);
    }
}

/// A duty out of range stays refused whatever the driver reports.
pub proof fn lemma_wrong_duty_stays_refused(fan_duty: u8, event: Event)
    requires
        !spec_duty_in_range(fan_duty),
    ensures
        FanDutyState::begin(fan_duty).pending() == Action::Finish(
            Err::<(), FanControlError>(FanControlError::Validation(fan_duty)),
        ),
        FanDutyState::begin(fan_duty).next(event) == FanDutyState::begin(fan_duty),
{
}

/// Starts the port access guard.
pub fn fan_control_init() -> (guard: PortGuard)
    ensures
        guard == PortGuard::WantsStatus,
{
    PortGuard::WantsStatus
}

} // verus!
