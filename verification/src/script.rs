//! What a transaction does, said outright: the requests a plan gives rise
//! to, stage by stage, for every stream of status and data bytes.

use vstd::prelude::*;
use crate::machine::{Event, Replies, Request, POLL_INTERVAL_MICROS};
use crate::ports::{Port, StatusFlag};
use crate::transaction::{Run, Stage, State, TimeoutError, RETRY_BUDGET};

verus! {

/// The requests of a wait that sleeps `sleeps` times: a probe of the status
/// byte, then a sleep of the poll interval and another probe for each time.
pub open spec fn probes(port: Port, sleeps: nat) -> Seq<Request>
    decreases sleeps,
{
    if sleeps == 0 {
        seq![Request::Read(port)]
    } else {
        seq![Request::Read(port), Request::Sleep(POLL_INTERVAL_MICROS)] + probes(
            port,
            (sleeps - 1) as nat,
        )
    }
}

/// How many replies in a row, from number `at` on and among at most
/// `limit`, do not show `flag` in the state `expected`.
pub open spec fn misses(
    flag: StatusFlag,
    expected: bool,
    replies: Replies,
    at: nat,
    limit: nat,
) -> nat
    decreases limit,
{
    if limit == 0 || flag.shows(replies(at), expected) {
        0
    } else {
        1 + misses(flag, expected, replies, at + 1, (limit - 1) as nat)
    }
}

/// What carrying out `plan` from stage `from` on looks like from outside,
/// when `received` is the value read so far and the port reads find
/// `replies`, starting with the reply number `at`.
///
/// A wait probes until the flag shows the expected state, sleeping between
/// probes. If the first probe and the [`RETRY_BUDGET`] probes after it all
/// miss, the transaction ends there with a timeout that reports the last
/// status byte; no later stage issues anything.
pub open spec fn script_run(
    plan: Seq<Stage>,
    from: nat,
    received: u8,
    replies: Replies,
    at: nat,
) -> Run
    decreases plan.len() - from,
{
    if from >= plan.len() {
        Run { trace: Seq::empty(), reads: 0, result: Ok(()), stage: from, received }
    } else {
        match plan[from as int] {
            Stage::Await { port, flag, expected } => {
                let missed = misses(flag, expected, replies, at, RETRY_BUDGET as nat + 1);
                if missed <= RETRY_BUDGET {
                    script_run(plan, from + 1, received, replies, at + missed + 1).after(
                        probes(port, missed),
                        missed + 1,
                    )
                } else {
                    Run {
                        trace: probes(port, RETRY_BUDGET as nat),
                        reads: RETRY_BUDGET as nat + 1,
                        result: Err(
                            TimeoutError {
                                port,
                                flag,
                                expected,
                                status: replies(at + RETRY_BUDGET as nat),
                            },
                        ),
                        stage: from,
                        received,
                    }
                }
            },
            Stage::Send { port, value } => script_run(plan, from + 1, received, replies, at).after(
                seq![Request::Write(port, value)],
                0,
            ),
            Stage::Receive { port } => script_run(
                plan,
                from + 1,
                replies(at),
                replies,
                at + 1,
            ).after(seq![Request::Read(port)], 1),
        }
    }
}

/// No more replies miss than are looked at, and the one after the misses,
/// if it is among those looked at, shows the flag as expected.
pub proof fn lemma_misses(flag: StatusFlag, expected: bool, replies: Replies, at: nat, limit: nat)
    ensures
        misses(flag, expected, replies, at, limit) <= limit,
        forall|i: nat|
            i < misses(flag, expected, replies, at, limit) ==> !flag.shows(
                #[trigger] replies(at + i),
                expected,
            ),
        misses(flag, expected, replies, at, limit) < limit ==> flag.shows(
            replies(at + misses(flag, expected, replies, at, limit)),
            expected,
        ),
    decreases limit,
{
    if limit != 0 && !flag.shows(replies(at), expected) {
        lemma_misses(flag, expected, replies, at + 1, (limit - 1) as nat);
        let later = misses(flag, expected, replies, at + 1, (limit - 1) as nat);
        assert forall|i: nat| i < later + 1 implies !flag.shows(
            #[trigger] replies(at + i),
            expected,
        ) by {
            if i > 0 {
                assert(!flag.shows(replies(at + 1 + (i - 1) as nat), expected));
            }
        }
    }
}

/// A wait that has slept `state.retries` times and is about to probe goes
/// on as a fresh wait with what is left of the budget would.
proof fn lemma_wait_in_progress(state: State, replies: Replies, at: nat)
    requires
        !state.finished(),
        state.stage() is Await,
        !state.sleeping,
        state.retries <= RETRY_BUDGET,
    ensures
        ({
            let left = (RETRY_BUDGET - state.retries) as nat;
            let missed = misses(
                state.stage()->Await_flag,
                state.stage()->Await_expected,
                replies,
                at,
                left + 1,
            );
            state.run(replies, at) == if missed <= left {
                state.advance().run(replies, at + missed + 1).after(
                    probes(state.stage()->Await_port, missed),
                    missed + 1,
                )
            } else {
                Run {
                    trace: probes(state.stage()->Await_port, left),
                    reads: left + 1,
                    result: Err(
                        TimeoutError {
                            port: state.stage()->Await_port,
                            flag: state.stage()->Await_flag,
                            expected: state.stage()->Await_expected,
                            status: replies(at + left),
                        },
                    ),
                    stage: state.pc,
                    received: state.received,
                }
            }
        }),
    decreases RETRY_BUDGET - state.retries,
{
    let port = state.stage()->Await_port;
    let flag = state.stage()->Await_flag;
    let expected = state.stage()->Await_expected;
    let left = (RETRY_BUDGET - state.retries) as nat;
    let missed = misses(flag, expected, replies, at, left + 1);
    let probe = Request::Read(port);
    let probed = state.next(Event::Byte(replies(at)));
    assert(state.run(replies, at) == probed.run(replies, at + 1).after(seq![probe], 1));
    if flag.shows(replies(at), expected) {
        assert(missed == 0);
        assert(probed == state.advance());
        assert(probes(port, 0) =~= seq![probe]);
    } else if state.retries < RETRY_BUDGET {
        let slept = probed.next(Event::Done);
        assert(probed.run(replies, at + 1) == slept.run(replies, at + 1).after(
            seq![Request::Sleep(POLL_INTERVAL_MICROS)],
            0,
        ));
        lemma_wait_in_progress(slept, replies, (at + 1) as nat);
        let later = misses(flag, expected, replies, at + 1, left);
        assert(missed == later + 1);
        assert(slept.advance() == state.advance());
        let retry = seq![probe, Request::Sleep(POLL_INTERVAL_MICROS)];
        assert(probes(port, missed) == retry + probes(port, later));
        let rest = slept.run(replies, at + 1);
        assert(state.run(replies, at).trace =~= retry + rest.trace);
        if later <= left - 1 {
            let tail = state.advance().run(replies, at + missed + 1);
            assert(rest == tail.after(probes(port, later), later + 1));
            assert(state.run(replies, at).trace =~= probes(port, missed) + tail.trace);
        } else {
            lemma_misses(flag, expected, replies, at + 1, left);
            assert(state.run(replies, at).trace =~= probes(port, left));
        }
    } else {
        assert(left == 0);
        assert(misses(flag, expected, replies, at + 1, 0) == 0);
        assert(missed == 1);
        assert(probed.finished());
        assert(state.run(replies, at).trace =~= probes(port, 0));
    }
}

/// A transaction at the start of a stage behaves as its plan says, whatever
/// the port reads find.
pub proof fn lemma_run_follows_script(
    plan: Seq<Stage>,
    from: nat,
    received: u8,
    replies: Replies,
    at: nat,
)
    ensures
        State::at_stage(plan, from, received).run(replies, at) == script_run(
            plan,
            from,
            received,
            replies,
            at,
        ),
    decreases plan.len() - from,
{
    let state = State::at_stage(plan, from, received);
    if from < plan.len() {
        match plan[from as int] {
            Stage::Await { port, flag, expected } => {
                lemma_wait_in_progress(state, replies, at);
                let missed = misses(flag, expected, replies, at, RETRY_BUDGET as nat + 1);
                if missed <= RETRY_BUDGET {
                    assert(state.advance() == State::at_stage(plan, from + 1, received));
                    lemma_run_follows_script(plan, from + 1, received, replies, at + missed + 1);
                }
            },
            Stage::Send { port, value } => {
                assert(state.next(Event::Done) == State::at_stage(
                    plan,
                    from + 1,
                    received,
                ));
                lemma_run_follows_script(plan, from + 1, received, replies, at);
            },
            Stage::Receive { port } => {
                assert(state.next(Event::Byte(replies(at))) == State::at_stage(
                    plan,
                    from + 1,
                    replies(at),
                ));
                lemma_run_follows_script(plan, from + 1, replies(at), replies, at + 1);
            },
        }
    }
}

/// Whether a request moves a byte to or from the controller: a write to
/// either port or a read of the data port. A probe of the status byte does
/// not, and neither does a sleep.
pub open spec fn is_transfer(request: Request) -> bool {
    match request {
        Request::Write(_, _) => true,
        Request::Read(port) => port == Port::Data,
        _ => false,
    }
}

/// [`is_transfer`] as a predicate.
pub open spec fn transfer_filter() -> spec_fn(Request) -> bool {
    |request: Request| is_transfer(request)
}

/// The requests of `trace` that move a byte, in the order of the trace.
pub open spec fn transfers(trace: Seq<Request>) -> Seq<Request> {
    trace.filter(transfer_filter())
}

/// The request by which `stage` moves a byte, if it moves one.
pub open spec fn stage_transfers(stage: Stage) -> Seq<Request> {
    match stage {
        Stage::Await { port, flag, expected } => Seq::empty(),
        Stage::Send { port, value } => seq![Request::Write(port, value)],
        Stage::Receive { port } => seq![Request::Read(port)],
    }
}

/// The requests by which the stages `from` to `to`, the last left out, move
/// their bytes.
pub open spec fn plan_transfers(plan: Seq<Stage>, from: nat, to: nat) -> Seq<Request>
    decreases to - from,
{
    if from >= to {
        Seq::empty()
    } else {
        stage_transfers(plan[from as int]) + plan_transfers(plan, from + 1, to)
    }
}

/// Whether every wait of `plan` probes the status port and every receive
/// reads the data port.
pub open spec fn keeps_to_ports(plan: Seq<Stage>) -> bool {
    forall|i: int|
        0 <= i < plan.len() ==> match #[trigger] plan[i] {
            Stage::Await { port, flag, expected } => port == Port::Status,
            Stage::Send { port, value } => true,
            Stage::Receive { port } => port == Port::Data,
        }
}

/// A wait with `sleeps` sleeps issues `sleeps + 1` probes and `sleeps`
/// sleeps, in turn: a probe at every even place, a sleep at every odd one.
pub proof fn lemma_probes(port: Port, sleeps: nat)
    ensures
        probes(port, sleeps).len() == 2 * sleeps + 1,
        forall|i: int|
            0 <= i < 2 * sleeps + 1 ==> #[trigger] probes(port, sleeps)[i] == if i % 2 == 0 {
                Request::Read(port)
            } else {
                Request::Sleep(POLL_INTERVAL_MICROS)
            },
    decreases sleeps,
{
    if sleeps > 0 {
        lemma_probes(port, (sleeps - 1) as nat);
        let shorter = probes(port, (sleeps - 1) as nat);
        assert forall|i: int| 0 <= i < 2 * sleeps + 1 implies #[trigger] probes(port, sleeps)[i]
            == if i % 2 == 0 {
            Request::Read(port)
        } else {
            Request::Sleep(POLL_INTERVAL_MICROS)
        } by {
            if i >= 2 {
                assert(probes(port, sleeps)[i] == shorter[i - 2]);
            }
        }
    }
}

/// The transfers of two traces in a row are those of the first, then those
/// of the second.
pub proof fn lemma_transfers_concat(first: Seq<Request>, second: Seq<Request>)
    ensures
        transfers(first + second) == transfers(first) + transfers(second),
{
    Seq::filter_distributes_over_add(first, second, transfer_filter());
}

/// A single request is its own transfers if it moves a byte, and has none
/// otherwise.
pub proof fn lemma_transfers_single(request: Request)
    ensures
        transfers(seq![request]) == if is_transfer(request) {
            seq![request]
        } else {
            Seq::<Request>::empty()
        },
{
    reveal_with_fuel(Seq::filter, 2);
    let one = seq![request];
    assert(one.drop_last() =~= Seq::<Request>::empty());
    assert(one.last() == request);
    assert(transfers(one) =~= if is_transfer(request) {
        seq![request]
    } else {
        Seq::<Request>::empty()
    });
}

/// Two traces that move no byte move none in a row either.
proof fn lemma_no_transfers_concat(first: Seq<Request>, second: Seq<Request>)
    requires
        transfers(first) == Seq::<Request>::empty(),
        transfers(second) == Seq::<Request>::empty(),
    ensures
        transfers(first + second) == Seq::<Request>::empty(),
{
    lemma_transfers_concat(first, second);
    assert(Seq::<Request>::empty() + Seq::<Request>::empty() =~= Seq::<Request>::empty());
}

/// A probe of the status byte and a sleep, put before a trace that moves no
/// byte, move none either.
proof fn lemma_retry_transfers_nothing(rest: Seq<Request>)
    requires
        transfers(rest) == Seq::<Request>::empty(),
    ensures
        transfers(
            (seq![Request::Read(Port::Status)] + seq![Request::Sleep(POLL_INTERVAL_MICROS)])
                + rest,
        ) == Seq::<Request>::empty(),
{
    let probe = seq![Request::Read(Port::Status)];
    let sleep = seq![Request::Sleep(POLL_INTERVAL_MICROS)];
    lemma_transfers_single(Request::Read(Port::Status));
    lemma_transfers_single(Request::Sleep(POLL_INTERVAL_MICROS));
    lemma_no_transfers_concat(probe, sleep);
    lemma_no_transfers_concat(probe + sleep, rest);
}

/// A wait that sleeps at least once is a probe and a sleep, then a wait
/// with one sleep fewer.
proof fn lemma_probes_unfold(port: Port, sleeps: nat)
    requires
        sleeps > 0,
    ensures
        probes(port, sleeps) == (seq![Request::Read(port)] + seq![
            Request::Sleep(POLL_INTERVAL_MICROS),
        ]) + probes(port, (sleeps - 1) as nat),
{
    assert(seq![Request::Read(port)] + seq![Request::Sleep(POLL_INTERVAL_MICROS)] =~= seq![
        Request::Read(port),
        Request::Sleep(POLL_INTERVAL_MICROS),
    ]);
}

/// Waiting on the status port moves no byte.
pub proof fn lemma_probes_transfer_nothing(sleeps: nat)
    ensures
        transfers(probes(Port::Status, sleeps)) == Seq::<Request>::empty(),
    decreases sleeps,
{
    if sleeps > 0 {
        lemma_probes_transfer_nothing((sleeps - 1) as nat);
        lemma_retry_transfers_nothing(probes(Port::Status, (sleeps - 1) as nat));
        lemma_probes_unfold(Port::Status, sleeps);
    } else {
        lemma_transfers_single(Request::Read(Port::Status));
    }
}

/// The bytes move in the order of the plan, with nothing left out and
/// nothing added: the transfers of a run are those of the stages before the
/// one at which it finished. It finishes past the last stage exactly when it
/// succeeds, and otherwise at the wait that its timeout reports.
pub proof fn lemma_transfers_follow_plan(
    plan: Seq<Stage>,
    from: nat,
    received: u8,
    replies: Replies,
    at: nat,
)
    requires
        keeps_to_ports(plan),
        from <= plan.len(),
    ensures
        ({
            let run = script_run(plan, from, received, replies, at);
            &&& from <= run.stage <= plan.len()
            &&& transfers(run.trace) == plan_transfers(plan, from, run.stage)
            &&& run.result is Ok <==> run.stage == plan.len()
            &&& run.result matches Err(error) ==> plan[run.stage as int] == Stage::Await {
                port: error.port,
                flag: error.flag,
                expected: error.expected,
            }
        }),
    decreases plan.len() - from,
{
    let run = script_run(plan, from, received, replies, at);
    if from < plan.len() {
        match plan[from as int] {
            Stage::Await { port, flag, expected } => {
                let missed = misses(flag, expected, replies, at, RETRY_BUDGET as nat + 1);
                if missed <= RETRY_BUDGET {
                    let rest = script_run(plan, from + 1, received, replies, at + missed + 1);
                    lemma_transfers_follow_plan(plan, from + 1, received, replies, at + missed + 1);
                    lemma_probes_transfer_nothing(missed);
                    lemma_transfers_concat(probes(port, missed), rest.trace);
                    assert(transfers(run.trace) =~= plan_transfers(plan, from, run.stage));
                } else {
                    lemma_probes_transfer_nothing(RETRY_BUDGET as nat);
                }
            },
            Stage::Send { port, value } => {
                let rest = script_run(plan, from + 1, received, replies, at);
                lemma_transfers_follow_plan(plan, from + 1, received, replies, at);
                lemma_transfers_single(Request::Write(port, value));
                lemma_transfers_concat(seq![Request::Write(port, value)], rest.trace);
            },
            Stage::Receive { port } => {
                let rest = script_run(plan, from + 1, replies(at), replies, at + 1);
                lemma_transfers_follow_plan(plan, from + 1, replies(at), replies, at + 1);
                lemma_transfers_single(Request::Read(port));
                lemma_transfers_concat(seq![Request::Read(port)], rest.trace);
            },
        }
    } else {
        reveal_with_fuel(Seq::filter, 1);
    }
}

} // verus!
