//! The protocol machines, driven against a simulated controller that
//! answers port reads from a script and records every request.

use rusty_clevo_fan::fan_control::{
    fan_control_init, get_cpu_temp, get_gpu_temp, set_fan_duty, sysio_read, sysio_wait,
    sysio_write, FanControlError, FanDuty, RegisterRead,
};
use rusty_clevo_fan::guard::{PermissionError, PortGuard};
use rusty_clevo_fan::machine::{Action, Event, Request, POLL_INTERVAL_MICROS};
use rusty_clevo_fan::ports::{Port, StatusFlag, EC_DATA, EC_SC, IBF, OBF};
use rusty_clevo_fan::transaction::{Stage, TimeoutError, Transaction, RETRY_BUDGET};

const IDLE: u8 = 0x00;
const BUSY: u8 = 0x02;
const READY: u8 = 0x01;

trait Machine {
    type Output;
    fn pending(&self) -> Action<Self::Output>;
    fn advance(&mut self, event: Event);
}

impl Machine for Transaction {
    type Output = Result<(), TimeoutError>;
    fn pending(&self) -> Action<Self::Output> {
        self.action()
    }
    fn advance(&mut self, event: Event) {
        self.step(event)
    }
}

impl Machine for RegisterRead {
    type Output = Result<u8, TimeoutError>;
    fn pending(&self) -> Action<Self::Output> {
        self.action()
    }
    fn advance(&mut self, event: Event) {
        self.step(event)
    }
}

impl Machine for FanDuty {
    type Output = Result<(), FanControlError>;
    fn pending(&self) -> Action<Self::Output> {
        self.action()
    }
    fn advance(&mut self, event: Event) {
        self.step(event)
    }
}

impl Machine for PortGuard {
    type Output = Result<(), PermissionError>;
    fn pending(&self) -> Action<Self::Output> {
        self.action()
    }
    fn advance(&mut self, event: Event) {
        self.step(event)
    }
}

/// The simulated controller. Reads of the status port take the next byte of
/// `status`, reads of the data port the next of `data`, and requests for
/// access the next of `codes`; when a script runs out, its last entry
/// repeats.
struct Bench {
    status: Vec<u8>,
    data: Vec<u8>,
    codes: Vec<i32>,
    status_reads: usize,
    data_reads: usize,
    asked: usize,
    log: Vec<Request>,
}

impl Bench {
    fn new(status: Vec<u8>, data: Vec<u8>) -> Bench {
        Bench::with_codes(vec![0], status, data)
    }

    fn with_codes(codes: Vec<i32>, status: Vec<u8>, data: Vec<u8>) -> Bench {
        Bench { status, data, codes, status_reads: 0, data_reads: 0, asked: 0, log: Vec::new() }
    }

    fn perform(&mut self, request: Request) -> Event {
        self.log.push(request);
        match request {
            Request::Acquire(_) => {
                let code = self.codes[self.asked.min(self.codes.len() - 1)];
                self.asked += 1;
                Event::Permission(code)
            }
            Request::Read(Port::Status) => {
                let byte = self.status[self.status_reads.min(self.status.len() - 1)];
                self.status_reads += 1;
                Event::Byte(byte)
            }
            Request::Read(Port::Data) => {
                let byte = self.data[self.data_reads.min(self.data.len() - 1)];
                self.data_reads += 1;
                Event::Byte(byte)
            }
            Request::Write(_, _) => Event::Done,
            Request::Sleep(_) => Event::Done,
        }
    }

    fn run<M: Machine>(&mut self, mut machine: M) -> M::Output {
        for _ in 0..10_000 {
            match machine.pending() {
                Action::Finish(output) => return output,
                Action::Ask(request) => {
                    let event = self.perform(request);
                    machine.advance(event);
                }
            }
        }
        panic!("the machine did not finish");
    }

    fn sleeps(&self) -> usize {
        self.log.iter().filter(|request| matches!(request, Request::Sleep(_))).count()
    }

    fn writes(&self) -> Vec<Request> {
        self.log.iter().copied().filter(|request| matches!(request, Request::Write(_, _))).collect()
    }

    fn reads_of(&self, port: Port) -> usize {
        self.log.iter().filter(|request| **request == Request::Read(port)).count()
    }
}

fn probes(port: Port, sleeps: usize) -> Vec<Request> {
    let mut trace = vec![Request::Read(port)];
    for _ in 0..sleeps {
        trace.push(Request::Sleep(1000));
        trace.push(Request::Read(port));
    }
    trace
}

fn input_timeout(status: u8) -> TimeoutError {
    TimeoutError { port: Port::Status, flag: StatusFlag::InputBufferFull, expected: false, status }
}

// Ports and flags

#[test]
fn ports_have_their_hardware_addresses() {
    assert_eq!(Port::Status.address(), 0x66);
    assert_eq!(Port::Data.address(), 0x62);
    assert_eq!(EC_SC, 0x66);
    assert_eq!(EC_DATA, 0x62);
}

#[test]
fn flags_have_their_bit_positions() {
    assert_eq!(StatusFlag::OutputBufferFull.bit(), 0);
    assert_eq!(StatusFlag::InputBufferFull.bit(), 1);
    assert_eq!(OBF, 0);
    assert_eq!(IBF, 1);
}

#[test]
fn flag_test_reads_the_flags_bit_of_every_status_byte() {
    for status in 0..=255u8 {
        assert_eq!(StatusFlag::OutputBufferFull.test(status), (status >> 0) & 1 == 1);
        assert_eq!(StatusFlag::InputBufferFull.test(status), (status >> 1) & 1 == 1);
    }
}

#[test]
fn retry_budget_and_poll_interval_are_the_defaults() {
    assert_eq!(RETRY_BUDGET, 100);
    assert_eq!(POLL_INTERVAL_MICROS, 1000);
}

// Handshake wait

#[test]
fn wait_returns_at_once_when_the_flag_is_already_as_expected() {
    let mut bench = Bench::new(vec![IDLE], vec![0]);
    let result = bench.run(sysio_wait(Port::Status, StatusFlag::InputBufferFull, false));
    assert_eq!(result, Ok(()));
    assert_eq!(bench.log, vec![Request::Read(Port::Status)]);
    assert_eq!(bench.sleeps(), 0);
}

#[test]
fn wait_for_a_raised_flag_returns_at_once_when_it_is_raised() {
    let mut bench = Bench::new(vec![READY], vec![0]);
    let result = bench.run(sysio_wait(Port::Status, StatusFlag::OutputBufferFull, true));
    assert_eq!(result, Ok(()));
    assert_eq!(bench.log, vec![Request::Read(Port::Status)]);
}

#[test]
fn wait_looks_at_its_own_bit_only() {
    let mut bench = Bench::new(vec![0xfd], vec![0]);
    assert_eq!(bench.run(sysio_wait(Port::Status, StatusFlag::InputBufferFull, false)), Ok(()));
    assert_eq!(bench.sleeps(), 0);

    let mut bench = Bench::new(vec![0xfe, 0x01], vec![0]);
    assert_eq!(bench.run(sysio_wait(Port::Status, StatusFlag::OutputBufferFull, true)), Ok(()));
    assert_eq!(bench.log, probes(Port::Status, 1));
}

#[test]
fn wait_sleeps_once_before_each_further_probe() {
    let mut bench = Bench::new(vec![BUSY, BUSY, IDLE], vec![0]);
    let result = bench.run(sysio_wait(Port::Status, StatusFlag::InputBufferFull, false));
    assert_eq!(result, Ok(()));
    assert_eq!(
        bench.log,
        vec![
            Request::Read(Port::Status),
            Request::Sleep(1000),
            Request::Read(Port::Status),
            Request::Sleep(1000),
            Request::Read(Port::Status),
        ]
    );
}

#[test]
fn wait_times_out_after_exactly_101_probes() {
    let mut bench = Bench::new(vec![BUSY], vec![0]);
    let result = bench.run(sysio_wait(Port::Status, StatusFlag::InputBufferFull, false));
    assert_eq!(result, Err(input_timeout(BUSY)));
    assert_eq!(bench.reads_of(Port::Status), 101);
    assert_eq!(bench.sleeps(), 100);
    assert_eq!(bench.log.len(), 201);
    assert_eq!(bench.log, probes(Port::Status, 100));
}

#[test]
fn wait_succeeds_when_the_last_probe_of_the_budget_finds_the_flag() {
    let mut status = vec![BUSY; 100];
    status.push(IDLE);
    let mut bench = Bench::new(status, vec![0]);
    let result = bench.run(sysio_wait(Port::Status, StatusFlag::InputBufferFull, false));
    assert_eq!(result, Ok(()));
    assert_eq!(bench.reads_of(Port::Status), 101);
    assert_eq!(bench.sleeps(), 100);
}

#[test]
fn wait_does_not_look_past_its_budget() {
    let mut status = vec![BUSY; 101];
    status.push(IDLE);
    let mut bench = Bench::new(status, vec![0]);
    let result = bench.run(sysio_wait(Port::Status, StatusFlag::InputBufferFull, false));
    assert_eq!(result, Err(input_timeout(BUSY)));
    assert_eq!(bench.reads_of(Port::Status), 101);
}

#[test]
fn timeout_reports_port_flag_expected_state_and_last_status_byte() {
    let mut status = vec![0xfe; 100];
    status.push(0x3c);
    let mut bench = Bench::new(status, vec![0]);
    let result = bench.run(sysio_wait(Port::Status, StatusFlag::OutputBufferFull, true));
    assert_eq!(
        result,
        Err(TimeoutError {
            port: Port::Status,
            flag: StatusFlag::OutputBufferFull,
            expected: true,
            status: 0x3c,
        })
    );
}

#[test]
fn wait_probes_the_port_it_was_given() {
    let mut bench = Bench::new(vec![BUSY], vec![BUSY, IDLE]);
    let result = bench.run(sysio_wait(Port::Data, StatusFlag::InputBufferFull, false));
    assert_eq!(result, Ok(()));
    assert_eq!(bench.log, probes(Port::Data, 1));
}

#[test]
fn an_event_that_does_not_answer_the_request_changes_nothing() {
    let mut wait = sysio_wait(Port::Status, StatusFlag::InputBufferFull, false);
    wait.step(Event::Done);
    wait.step(Event::Permission(0));
    assert_eq!(wait.action(), Action::Ask(Request::Read(Port::Status)));
    wait.step(Event::Byte(BUSY));
    assert_eq!(wait.action(), Action::Ask(Request::Sleep(1000)));
    wait.step(Event::Byte(IDLE));
    assert_eq!(wait.action(), Action::Ask(Request::Sleep(1000)));
    wait.step(Event::Done);
    assert_eq!(wait.action(), Action::Ask(Request::Read(Port::Status)));
}

#[test]
fn a_finished_wait_stays_finished() {
    let mut wait = sysio_wait(Port::Status, StatusFlag::InputBufferFull, false);
    wait.step(Event::Byte(IDLE));
    assert_eq!(wait.action(), Action::Finish(Ok(())));
    wait.step(Event::Byte(BUSY));
    wait.step(Event::Done);
    assert_eq!(wait.action(), Action::Finish(Ok(())));
}

#[test]
fn an_empty_transaction_is_finished_from_the_start() {
    let mut bench = Bench::new(vec![BUSY], vec![0]);
    assert_eq!(bench.run(Transaction::new(Vec::new())), Ok(()));
    assert!(bench.log.is_empty());
}

#[test]
fn a_transaction_carries_out_its_stages_in_order() {
    let plan = vec![
        Stage::Send { port: Port::Data, value: 7 },
        Stage::Receive { port: Port::Data },
        Stage::Await { port: Port::Status, flag: StatusFlag::OutputBufferFull, expected: false },
        Stage::Send { port: Port::Status, value: 9 },
    ];
    let mut machine = Transaction::new(plan);
    let mut bench = Bench::new(vec![READY, IDLE], vec![0x55]);
    let mut finished = None;
    for _ in 0..100 {
        match machine.action() {
            Action::Finish(result) => {
                finished = Some(result);
                break;
            }
            Action::Ask(request) => {
                let event = bench.perform(request);
                machine.step(event);
            }
        }
    }
    assert_eq!(finished, Some(Ok(())));
    assert_eq!(machine.received(), 0x55);
    assert_eq!(
        bench.log,
        vec![
            Request::Write(Port::Data, 7),
            Request::Read(Port::Data),
            Request::Read(Port::Status),
            Request::Sleep(1000),
            Request::Read(Port::Status),
            Request::Write(Port::Status, 9),
        ]
    );
}

// Register read

#[test]
fn read_issues_its_three_transfers_in_order() {
    let mut bench = Bench::new(vec![IDLE, IDLE, READY], vec![0x2a]);
    let result = bench.run(sysio_read(0x10));
    assert_eq!(result, Ok(0x2a));
    assert_eq!(
        bench.log,
        vec![
            Request::Read(Port::Status),
            Request::Write(Port::Status, 0x80),
            Request::Read(Port::Status),
            Request::Write(Port::Data, 0x10),
            Request::Read(Port::Status),
            Request::Read(Port::Data),
        ]
    );
}

#[test]
fn read_waits_before_each_transfer() {
    let status = vec![BUSY, IDLE, BUSY, BUSY, IDLE, 0x00, 0x00, 0x00, READY];
    let mut bench = Bench::new(status, vec![0x31]);
    let result = bench.run(sysio_read(0x07));
    assert_eq!(result, Ok(0x31));
    let mut expected = probes(Port::Status, 1);
    expected.push(Request::Write(Port::Status, 0x80));
    expected.extend(probes(Port::Status, 2));
    expected.push(Request::Write(Port::Data, 0x07));
    expected.extend(probes(Port::Status, 3));
    expected.push(Request::Read(Port::Data));
    assert_eq!(bench.log, expected);
}

#[test]
fn read_returns_every_byte_as_the_controller_gave_it() {
    for byte in 0..=255u8 {
        let mut bench = Bench::new(vec![IDLE, IDLE, READY], vec![byte]);
        assert_eq!(bench.run(sysio_read(0x07)), Ok(byte));
        assert_eq!(bench.reads_of(Port::Data), 1);
    }
}

#[test]
fn read_that_times_out_in_its_first_wait_moves_nothing() {
    let mut bench = Bench::new(vec![BUSY], vec![0x2a]);
    let result = bench.run(sysio_read(0x07));
    assert_eq!(result, Err(input_timeout(BUSY)));
    assert_eq!(bench.log, probes(Port::Status, 100));
}

#[test]
fn read_that_times_out_in_its_second_wait_has_sent_the_command_only() {
    let mut bench = Bench::new(vec![IDLE, BUSY], vec![0x2a]);
    let result = bench.run(sysio_read(0x07));
    assert_eq!(result, Err(input_timeout(BUSY)));
    assert_eq!(bench.writes(), vec![Request::Write(Port::Status, 0x80)]);
    assert_eq!(bench.reads_of(Port::Data), 0);
    assert_eq!(bench.sleeps(), 100);
}

#[test]
fn read_that_times_out_in_its_third_wait_returns_no_byte() {
    let mut bench = Bench::new(vec![IDLE, IDLE, 0x04], vec![0x2a]);
    let result = bench.run(sysio_read(0x07));
    assert_eq!(
        result,
        Err(TimeoutError {
            port: Port::Status,
            flag: StatusFlag::OutputBufferFull,
            expected: true,
            status: 0x04,
        })
    );
    assert_eq!(
        bench.writes(),
        vec![Request::Write(Port::Status, 0x80), Request::Write(Port::Data, 0x07)]
    );
    assert_eq!(bench.reads_of(Port::Data), 0);
}

// Register write

#[test]
fn write_issues_its_four_operations_in_order() {
    let mut bench = Bench::new(vec![IDLE], vec![0]);
    let result = bench.run(sysio_write(0x99, 0x01, 165));
    assert_eq!(result, Ok(()));
    assert_eq!(
        bench.log,
        vec![
            Request::Read(Port::Status),
            Request::Write(Port::Status, 0x99),
            Request::Read(Port::Status),
            Request::Write(Port::Data, 0x01),
            Request::Read(Port::Status),
            Request::Write(Port::Data, 165),
            Request::Read(Port::Status),
        ]
    );
}

#[test]
fn write_ends_with_a_wait_for_the_controller_to_take_the_value() {
    let mut bench = Bench::new(vec![IDLE, IDLE, IDLE, BUSY, BUSY, IDLE], vec![0]);
    let result = bench.run(sysio_write(0x99, 0x01, 200));
    assert_eq!(result, Ok(()));
    let tail: Vec<Request> = bench.log[5..].to_vec();
    let mut expected = vec![Request::Write(Port::Data, 200)];
    expected.extend(probes(Port::Status, 2));
    assert_eq!(tail, expected);
}

#[test]
fn write_that_times_out_in_its_last_wait_has_sent_all_three_bytes() {
    let mut bench = Bench::new(vec![IDLE, IDLE, IDLE, BUSY], vec![0]);
    let result = bench.run(sysio_write(0x99, 0x01, 200));
    assert_eq!(result, Err(input_timeout(BUSY)));
    assert_eq!(
        bench.writes(),
        vec![
            Request::Write(Port::Status, 0x99),
            Request::Write(Port::Data, 0x01),
            Request::Write(Port::Data, 200),
        ]
    );
}

#[test]
fn write_that_times_out_after_the_address_sends_no_value() {
    let mut bench = Bench::new(vec![IDLE, IDLE, 0x03], vec![0]);
    let result = bench.run(sysio_write(0x99, 0x01, 200));
    assert_eq!(result, Err(input_timeout(0x03)));
    assert_eq!(
        bench.writes(),
        vec![Request::Write(Port::Status, 0x99), Request::Write(Port::Data, 0x01)]
    );
}

#[test]
fn write_that_times_out_at_once_sends_nothing() {
    let mut bench = Bench::new(vec![BUSY], vec![0]);
    let result = bench.run(sysio_write(0x99, 0x01, 200));
    assert_eq!(result, Err(input_timeout(BUSY)));
    assert!(bench.writes().is_empty());
    assert_eq!(bench.log.len(), 201);
}

// Sensors

#[test]
fn cpu_temperature_is_one_read_of_register_07() {
    let mut bench = Bench::new(vec![IDLE, IDLE, READY], vec![54]);
    let result = bench.run(get_cpu_temp());
    assert_eq!(result, Ok(54));
    assert_eq!(
        bench.writes(),
        vec![Request::Write(Port::Status, 0x80), Request::Write(Port::Data, 0x07)]
    );
    assert_eq!(bench.reads_of(Port::Data), 1);
}

#[test]
fn gpu_temperature_is_one_read_of_register_cd() {
    let mut bench = Bench::new(vec![IDLE, IDLE, READY], vec![61]);
    let result = bench.run(get_gpu_temp());
    assert_eq!(result, Ok(61));
    assert_eq!(
        bench.writes(),
        vec![Request::Write(Port::Status, 0x80), Request::Write(Port::Data, 0xcd)]
    );
    assert_eq!(bench.reads_of(Port::Data), 1);
}

#[test]
fn temperatures_are_not_changed_on_the_way() {
    for byte in [0u8, 1, 37, 100, 127, 128, 200, 255] {
        let mut bench = Bench::new(vec![IDLE, IDLE, READY], vec![byte]);
        assert_eq!(bench.run(get_cpu_temp()), Ok(byte));
        let mut bench = Bench::new(vec![IDLE, IDLE, READY], vec![byte]);
        assert_eq!(bench.run(get_gpu_temp()), Ok(byte));
    }
}

#[test]
fn sensor_read_surfaces_the_timeout() {
    let mut bench = Bench::new(vec![BUSY], vec![54]);
    assert_eq!(bench.run(get_cpu_temp()), Err(input_timeout(BUSY)));
    let mut bench = Bench::new(vec![BUSY], vec![54]);
    assert_eq!(bench.run(get_gpu_temp()), Err(input_timeout(BUSY)));
}

// Fan duty

#[test]
fn duty_out_of_range_is_refused_with_nothing_written() {
    for percent in [0u8, 1, 39, 101, 102, 200, 255] {
        let mut bench = Bench::new(vec![IDLE], vec![0]);
        let result = bench.run(set_fan_duty(percent));
        assert_eq!(result, Err(FanControlError::Validation(percent)));
        assert!(bench.writes().is_empty());
        assert!(bench.log.is_empty());
    }
}

#[test]
fn every_duty_out_of_range_is_finished_from_the_start() {
    for percent in (0..40u8).chain(101..=255u8) {
        let mut change = set_fan_duty(percent);
        assert_eq!(change.action(), Action::Finish(Err(FanControlError::Validation(percent))));
        change.step(Event::Byte(IDLE));
        change.step(Event::Done);
        assert_eq!(change.action(), Action::Finish(Err(FanControlError::Validation(percent))));
    }
}

#[test]
fn duty_in_range_writes_its_byte_to_the_fan_register() {
    for (percent, byte) in [(40u8, 102u8), (50, 128), (65, 166), (100, 255)] {
        let mut bench = Bench::new(vec![IDLE], vec![0]);
        let change = set_fan_duty(percent);
        assert_eq!(change.fan_duty(), percent);
        let result = bench.run(change);
        assert_eq!(result, Ok(()));
        assert_eq!(
            bench.writes(),
            vec![
                Request::Write(Port::Status, 0x99),
                Request::Write(Port::Data, 0x01),
                Request::Write(Port::Data, byte),
            ]
        );
    }
}

#[test]
fn every_duty_in_range_is_one_register_write() {
    for percent in 40..=100u8 {
        let mut bench = Bench::new(vec![IDLE], vec![0]);
        assert_eq!(bench.run(set_fan_duty(percent)), Ok(()));
        assert_eq!(bench.log.len(), 7);
        assert_eq!(bench.writes().len(), 3);
        assert_eq!(bench.reads_of(Port::Data), 0);
    }
}

#[test]
fn duty_change_surfaces_the_timeout_of_its_write() {
    let mut bench = Bench::new(vec![IDLE, IDLE, BUSY], vec![0]);
    let result = bench.run(set_fan_duty(65));
    assert_eq!(result, Err(FanControlError::Timeout(input_timeout(BUSY))));
    assert_eq!(
        bench.writes(),
        vec![Request::Write(Port::Status, 0x99), Request::Write(Port::Data, 0x01)]
    );
}

// Port access guard

#[test]
fn guard_asks_for_the_status_port_and_then_the_data_port() {
    let mut bench = Bench::with_codes(vec![0, 0], vec![IDLE], vec![0]);
    let result = bench.run(fan_control_init());
    assert_eq!(result, Ok(()));
    assert_eq!(bench.log, vec![Request::Acquire(Port::Status), Request::Acquire(Port::Data)]);
}

#[test]
fn guard_starts_by_wanting_the_status_port() {
    assert_eq!(fan_control_init(), PortGuard::WantsStatus);
    assert_eq!(fan_control_init().action(), Action::Ask(Request::Acquire(Port::Status)));
}

#[test]
fn guard_refused_the_status_port_does_not_ask_for_the_data_port() {
    let mut bench = Bench::with_codes(vec![-1, 0], vec![IDLE], vec![0]);
    let result = bench.run(fan_control_init());
    assert_eq!(result, Err(PermissionError { port: Port::Status, code: -1 }));
    assert_eq!(bench.log, vec![Request::Acquire(Port::Status)]);
}

#[test]
fn guard_refused_the_data_port_reports_it() {
    let mut bench = Bench::with_codes(vec![0, 13], vec![IDLE], vec![0]);
    let result = bench.run(fan_control_init());
    assert_eq!(result, Err(PermissionError { port: Port::Data, code: 13 }));
    assert_eq!(bench.log, vec![Request::Acquire(Port::Status), Request::Acquire(Port::Data)]);
}

#[test]
fn guard_takes_only_the_answer_to_its_request() {
    let mut guard = fan_control_init();
    guard.step(Event::Done);
    guard.step(Event::Byte(0));
    assert_eq!(guard, PortGuard::WantsStatus);
    guard.step(Event::Permission(0));
    assert_eq!(guard, PortGuard::WantsData);
    guard.step(Event::Permission(0));
    assert_eq!(guard, PortGuard::Granted);
    guard.step(Event::Permission(-1));
    assert_eq!(guard, PortGuard::Granted);
    assert_eq!(guard.action(), Action::Finish(Ok(())));
}

#[test]
fn a_refused_guard_stays_refused() {
    let mut guard = fan_control_init();
    guard.step(Event::Permission(-1));
    let refused = PortGuard::Denied(PermissionError { port: Port::Status, code: -1 });
    assert_eq!(guard, refused);
    guard.step(Event::Permission(0));
    assert_eq!(guard, refused);
}

// Whole runs, held against the protocol said outright

/// A stream of status bytes in which the flags change now and then.
fn status_stream(seed: u32, len: usize) -> Vec<u8> {
    let mut state = seed.wrapping_mul(2654435761).wrapping_add(12345);
    let mut stream = Vec::new();
    let mut byte = 0u8;
    for _ in 0..len {
        state = state.wrapping_mul(1103515245).wrapping_add(12345);
        let roll = (state >> 16) % 100;
        if roll < (seed % 40) + 1 {
            byte = (state >> 8) as u8;
        }
        stream.push(byte);
    }
    stream
}

/// What a wait must do on the status bytes from `at` on: the requests, how
/// many bytes it takes, and the timeout if there is one.
fn expected_wait(
    status: &[u8],
    at: usize,
    flag: StatusFlag,
    expected: bool,
) -> (Vec<Request>, usize, Option<TimeoutError>) {
    let mut missed = 0;
    while missed < 101 && flag.test(status[at + missed]) != expected {
        missed += 1;
    }
    if missed <= 100 {
        (probes(Port::Status, missed), missed + 1, None)
    } else {
        let error =
            TimeoutError { port: Port::Status, flag, expected, status: status[at + 100] };
        (probes(Port::Status, 100), 101, Some(error))
    }
}

#[test]
fn register_reads_follow_the_protocol_on_many_status_streams() {
    for seed in 0..300u32 {
        let status = status_stream(seed, 400);
        let mut bench = Bench::new(status.clone(), vec![seed as u8]);
        let result = bench.run(sysio_read(0x07));

        let mut trace = Vec::new();
        let mut at = 0;
        let mut outcome = Ok(seed as u8);
        let waits = [
            (StatusFlag::InputBufferFull, false, Some(Request::Write(Port::Status, 0x80))),
            (StatusFlag::InputBufferFull, false, Some(Request::Write(Port::Data, 0x07))),
            (StatusFlag::OutputBufferFull, true, Some(Request::Read(Port::Data))),
        ];
        for (flag, expected, transfer) in waits {
            let (requests, used, timeout) = expected_wait(&status, at, flag, expected);
            trace.extend(requests);
            at += used;
            if let Some(error) = timeout {
                outcome = Err(error);
                break;
            }
            trace.extend(transfer);
        }
        assert_eq!(result, outcome, "seed {}", seed);
        assert_eq!(bench.log, trace, "seed {}", seed);
    }
}

#[test]
fn register_writes_follow_the_protocol_on_many_status_streams() {
    for seed in 0..300u32 {
        let status = status_stream(seed, 500);
        let mut bench = Bench::new(status.clone(), vec![0]);
        let value = (seed * 7) as u8;
        let result = bench.run(sysio_write(0x99, 0x01, value));

        let mut trace = Vec::new();
        let mut at = 0;
        let mut outcome = Ok(());
        let transfers = [
            Some(Request::Write(Port::Status, 0x99)),
            Some(Request::Write(Port::Data, 0x01)),
            Some(Request::Write(Port::Data, value)),
            None,
        ];
        for transfer in transfers {
            let (requests, used, timeout) =
                expected_wait(&status, at, StatusFlag::InputBufferFull, false);
            trace.extend(requests);
            at += used;
            if let Some(error) = timeout {
                outcome = Err(error);
                break;
            }
            trace.extend(transfer);
        }
        assert_eq!(result, outcome, "seed {}", seed);
        assert_eq!(bench.log, trace, "seed {}", seed);
        assert!(bench.log.len() <= 807);
    }
}

#[test]
fn status_streams_cover_success_and_timeout() {
    let mut succeeded = 0;
    let mut timed_out = 0;
    for seed in 0..300u32 {
        let mut bench = Bench::new(status_stream(seed, 400), vec![0]);
        match bench.run(sysio_read(0x07)) {
            Ok(_) => succeeded += 1,
            Err(_) => timed_out += 1,
        }
    }
    assert!(succeeded > 0);
    assert!(timed_out > 0);
}
