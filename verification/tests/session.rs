//! Whole sessions, driven against a simulated machine: the operating system
//! answers requests for access from a script, the controller answers port
//! reads from another, and every request is recorded.

use rusty_clevo_fan::args::EParsedArgs;
use rusty_clevo_fan::guard::PermissionError;
use rusty_clevo_fan::machine::{Action, Event, Request};
use rusty_clevo_fan::ports::{Port, StatusFlag};
use rusty_clevo_fan::session::{Failure, Report, Session};
use rusty_clevo_fan::transaction::TimeoutError;

const IDLE: u8 = 0x00;
const BUSY: u8 = 0x02;
const READY: u8 = 0x01;

struct Bench {
    codes: Vec<i32>,
    status: Vec<u8>,
    data: Vec<u8>,
    asked: usize,
    status_reads: usize,
    data_reads: usize,
    log: Vec<Request>,
}

impl Bench {
    fn new(codes: Vec<i32>, status: Vec<u8>, data: Vec<u8>) -> Bench {
        Bench { codes, status, data, asked: 0, status_reads: 0, data_reads: 0, log: Vec::new() }
    }

    fn perform(&mut self, request: Request) -> Event {
        self.log.push(request);
        match request {
            Request::Acquire(_) => {
                let code = self.codes[self.asked.min(self.codes.len() - 1)];
                self.asked += 1;
                Event::Permission(code)
            }
            Request::Read(Port::Status) => {
                let byte = self.status[self.status_reads.min(self.status.len() - 1)];
                self.status_reads += 1;
                Event::Byte(byte)
            }
            Request::Read(Port::Data) => {
                let byte = self.data[self.data_reads.min(self.data.len() - 1)];
                self.data_reads += 1;
                Event::Byte(byte)
            }
            Request::Write(_, _) => Event::Done,
            Request::Sleep(_) => Event::Done,
        }
    }

    fn run(&mut self, command: EParsedArgs) -> Result<Report, Failure> {
        let mut session = Session::new(command);
        for _ in 0..10_000 {
            match session.action() {
                Action::Finish(result) => return result,
                Action::Ask(request) => {
                    let event = self.perform(request);
                    session.step(event);
                }
            }
        }
        panic!("the session did not finish");
    }

    fn register_requests(&self) -> usize {
        self.log.iter().filter(|request| !matches!(request, Request::Acquire(_))).count()
    }
}

fn read_of(register: u8) -> Vec<Request> {
    vec![
        Request::Read(Port::Status),
        Request::Write(Port::Status, 0x80),
        Request::Read(Port::Status),
        Request::Write(Port::Data, register),
        Request::Read(Port::Status),
        Request::Read(Port::Data),
    ]
}

#[test]
fn help_asks_for_nothing() {
    let mut bench = Bench::new(vec![-1], vec![BUSY], vec![0]);
    assert_eq!(bench.run(EParsedArgs::Help), Ok(Report::Help));
    assert!(bench.log.is_empty());
}

#[test]
fn help_session_takes_no_event() {
    let mut session = Session::new(EParsedArgs::Help);
    session.step(Event::Permission(-1));
    session.step(Event::Byte(BUSY));
    assert_eq!(session.action(), Action::Finish(Ok(Report::Help)));
}

#[test]
fn dump_reads_the_cpu_temperature_and_then_the_gpu_temperature() {
    let mut bench =
        Bench::new(vec![0, 0], vec![IDLE, IDLE, READY, IDLE, IDLE, READY], vec![48, 52]);
    let result = bench.run(EParsedArgs::Dump);
    assert_eq!(result, Ok(Report::Temperatures { cpu: 48, gpu: 52 }));
    let mut expected = vec![Request::Acquire(Port::Status), Request::Acquire(Port::Data)];
    expected.extend(read_of(0x07));
    expected.extend(read_of(0xcd));
    assert_eq!(bench.log, expected);
}

#[test]
fn duty_session_sets_the_fan_duty() {
    let mut bench = Bench::new(vec![0, 0], vec![IDLE], vec![0]);
    let result = bench.run(EParsedArgs::Duty(65));
    assert_eq!(result, Ok(Report::FanDuty(65)));
    assert_eq!(
        bench.log,
        vec![
            Request::Acquire(Port::Status),
            Request::Acquire(Port::Data),
            Request::Read(Port::Status),
            Request::Write(Port::Status, 0x99),
            Request::Read(Port::Status),
            Request::Write(Port::Data, 0x01),
            Request::Read(Port::Status),
            Request::Write(Port::Data, 166),
            Request::Read(Port::Status),
        ]
    );
}

#[test]
fn refused_status_port_ends_the_session_before_any_register_operation() {
    for command in [EParsedArgs::Dump, EParsedArgs::Duty(65), EParsedArgs::Duty(10)] {
        let mut bench = Bench::new(vec![-1, 0], vec![IDLE, IDLE, READY], vec![48]);
        let result = bench.run(command);
        assert_eq!(
            result,
            Err(Failure::Permission(PermissionError { port: Port::Status, code: -1 }))
        );
        assert_eq!(bench.log, vec![Request::Acquire(Port::Status)]);
        assert_eq!(bench.register_requests(), 0);
    }
}

#[test]
fn refused_data_port_ends_the_session_before_any_register_operation() {
    for command in [EParsedArgs::Dump, EParsedArgs::Duty(65)] {
        let mut bench = Bench::new(vec![0, -1], vec![IDLE, IDLE, READY], vec![48]);
        let result = bench.run(command);
        assert_eq!(
            result,
            Err(Failure::Permission(PermissionError { port: Port::Data, code: -1 }))
        );
        assert_eq!(
            bench.log,
            vec![Request::Acquire(Port::Status), Request::Acquire(Port::Data)]
        );
        assert_eq!(bench.register_requests(), 0);
    }
}

#[test]
fn a_refused_session_stays_finished() {
    let mut session = Session::new(EParsedArgs::Dump);
    session.step(Event::Permission(1));
    let refused =
        Action::Finish(Err(Failure::Permission(PermissionError { port: Port::Status, code: 1 })));
    assert_eq!(session.action(), refused);
    session.step(Event::Permission(0));
    session.step(Event::Byte(IDLE));
    session.step(Event::Done);
    assert_eq!(session.action(), refused);
}

#[test]
fn session_asks_for_access_before_it_looks_at_the_duty() {
    let mut bench = Bench::new(vec![0, 0], vec![IDLE], vec![0]);
    let result = bench.run(EParsedArgs::Duty(30));
    assert_eq!(result, Err(Failure::Validation(30)));
    assert_eq!(bench.log, vec![Request::Acquire(Port::Status), Request::Acquire(Port::Data)]);
}

#[test]
fn dump_does_not_read_the_gpu_temperature_after_a_timeout() {
    let mut bench = Bench::new(vec![0, 0], vec![IDLE, BUSY], vec![48]);
    let result = bench.run(EParsedArgs::Dump);
    assert_eq!(
        result,
        Err(Failure::Timeout(TimeoutError {
            port: Port::Status,
            flag: StatusFlag::InputBufferFull,
            expected: false,
            status: BUSY,
        }))
    );
    let writes: Vec<Request> = bench
        .log
        .iter()
        .copied()
        .filter(|request| matches!(request, Request::Write(_, _)))
        .collect();
    assert_eq!(writes, vec![Request::Write(Port::Status, 0x80)]);
}

#[test]
fn dump_surfaces_a_timeout_of_the_second_read() {
    let mut status = vec![IDLE, IDLE, READY, IDLE, IDLE];
    status.push(0x04);
    let mut bench = Bench::new(vec![0, 0], status, vec![48, 52]);
    let result = bench.run(EParsedArgs::Dump);
    assert_eq!(
        result,
        Err(Failure::Timeout(TimeoutError {
            port: Port::Status,
            flag: StatusFlag::OutputBufferFull,
            expected: true,
            status: 0x04,
        }))
    );
    assert_eq!(bench.data_reads, 1);
}

#[test]
fn duty_session_surfaces_a_timeout() {
    let mut bench = Bench::new(vec![0, 0], vec![BUSY], vec![0]);
    let result = bench.run(EParsedArgs::Duty(100));
    assert_eq!(
        result,
        Err(Failure::Timeout(TimeoutError {
            port: Port::Status,
            flag: StatusFlag::InputBufferFull,
            expected: false,
            status: BUSY,
        }))
    );
    assert_eq!(bench.register_requests(), 201);
}
