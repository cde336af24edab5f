//! What holds of the commands that a running sequence sends.
use vstd::prelude::*;

use super::dictionary;
use super::dictionary::Action;
use super::dictionary::SequencerEvent;
use super::format::{LoadOutcome, SequenceState, WireRecord};
use super::messages::Message;
use super::model;
use super::model::{SequencerState, Trace};
use super::types::{BlockState, RecordDescriptor, RunMode, StepMode};
use crate::fw::counter;
use crate::fw::time::Time;
use crate::fw::types::CmdResponse;

verus! {

/// The commands that are sent in a list of outputs, in order.
pub open spec fn sent(out: Seq<Action<Seq<u8>>>) -> Seq<Seq<u8>>
    decreases out.len(),
{
    if out.len() == 0 {
        Seq::empty()
    } else {
        match out.last() {
            Action::ComCmd { data, .. } => sent(out.drop_last()).push(data),
            _ => sent(out.drop_last()),
        }
    }
}

/// The commands of records.
pub open spec fn commands_of(records: Seq<WireRecord>) -> Seq<Seq<u8>> {
    Seq::new(records.len(), |i: int| records[i].command)
}

/// Whether the command of a record is sent as soon as the record is reached at time `now`.
pub open spec fn due_at(r: WireRecord, now: Time) -> bool {
    match r.descriptor {
        RecordDescriptor::Absolute => !now.earlier(
            Time { seconds: r.seconds, useconds: r.useconds, ..now },
        ),
        RecordDescriptor::Relative => r.seconds == 0 && r.useconds == 0,
        RecordDescriptor::EndOfSequence => false,
    }
}

/// A run after its commands have been answered one by one, all carried out.
pub open spec fn answered(t: Trace, op_codes: Seq<u32>, now: Time) -> Trace
    decreases op_codes.len(),
{
    if op_codes.len() == 0 {
        t
    } else {
        answered(t, op_codes.drop_last(), now).cmd_response(op_codes.last(), CmdResponse::OK, now)
    }
}

pub(crate) broadcast proof fn lemma_sent_push(out: Seq<Action<Seq<u8>>>, a: Action<Seq<u8>>)
    ensures
        #[trigger] sent(out.push(a)) == (match a {
            Action::ComCmd { data, .. } => sent(out).push(data),
            _ => sent(out),
        }),
{
    assert(out.push(a).drop_last() =~= out);
}

pub(crate) proof fn lemma_cancel_sends_nothing(t: Trace)
    ensures
        sent(t.perform_cancel().out) == sent(t.out),
{
    broadcast use lemma_sent_push;

    reveal(Trace::perform_cancel);
}

pub(crate) proof fn lemma_complete_sends_nothing(t: Trace)
    ensures
        sent(t.sequence_complete().out) == sent(t.out),
{
    broadcast use lemma_sent_push;

    reveal(Trace::sequence_complete);
}

/// A step sends its command, waits for its time, or ends the sequence.
proof fn lemma_step_sends(t: Trace, now: Time)
    ensures
        ({
            let after = t.step(now);
            ||| {
                &&& sent(after.out) == sent(t.out).push(after.state.record.command)
                &&& after.state.cmd_timer == t.state.cmd_timer
                &&& after.state.run_mode == t.state.run_mode
            }
            ||| {
                &&& sent(after.out) == sent(t.out)
                &&& after.state.cmd_timer.armed
                &&& after.state.run_mode == t.state.run_mode
            }
            ||| {
                &&& sent(after.out) == sent(t.out)
                &&& after.state.run_mode == RunMode::Stopped
            }
        }),
{
    broadcast use lemma_sent_push;

    reveal(Trace::step);
    let ended = t.to(
        SequencerState {
            sequence: SequenceState {
                position: t.state.sequence.position + 1,
                ..t.state.sequence
            },
            record: t.fetched(),
            run_mode: RunMode::Stopped,
            ..t.state
        },
    );
    lemma_complete_sends_nothing(ended);
    model::lemma_sequence_complete(ended);
}

/// While a sequence runs on its own and no record waits for its time, a command has been
/// sent and not been answered. Then nothing that arrives but an answer has another command
/// sent.
pub proof fn law_next_command_waits_for_the_answer(
    t: Trace,
    op_code: u32,
    cmd_seq: u32,
    args: Seq<u8>,
    name: Seq<u8>,
    outcome: LoadOutcome,
    now: Time,
    later: Time,
)
    requires
        t.state.valid(),
        t.state.run_mode == RunMode::Running,
        t.state.step_mode == StepMode::Auto,
        !t.state.cmd_timer.armed,
    ensures
        sent(t.sched(now, later).out) == sent(t.out),
        sent(t.command(op_code, cmd_seq, args, outcome, now, later).out) == sent(t.out),
        sent(t.port_run(name, outcome, now, later).out) == sent(t.out),
        sent(t.cancel_sequence().out) == sent(t.out),
{
    broadcast use lemma_sent_push;

    lemma_cancel_sends_nothing(t);
    lemma_cancel_sends_nothing(
        t.log(SequencerEvent::SequenceTimeout { command: t.state.executed_count }),
    );
}

/// An answer has at most one further command sent. After a success, where the sequence
/// goes on, either the next command was sent, or its record waits for its time.
pub proof fn law_answer_sends_at_most_one(
    t: Trace,
    op_code: u32,
    response: CmdResponse,
    now: Time,
)
    requires
        t.state.valid(),
        !t.state.cmd_timer.armed,
    ensures
        ({
            let after = t.cmd_response(op_code, response, now);
            &&& sent(after.out).len() <= sent(t.out).len() + 1
            &&& response != CmdResponse::OK ==> sent(after.out) == sent(t.out)
            &&& response == CmdResponse::OK && t.state.step_mode == StepMode::Auto
                && after.state.run_mode == RunMode::Running ==> (if after.state.cmd_timer.armed {
                sent(after.out) == sent(t.out)
            } else {
                sent(after.out) == sent(t.out).push(after.state.record.command)
            })
        }),
{
    broadcast use lemma_sent_push;

    let heard = t.to(
        SequencerState { cmd_timeout_timer: t.state.cmd_timeout_timer.disarmed(), ..t.state },
    );
    let failed = heard.log(
        SequencerEvent::CommandError {
            record_number: t.state.executed_count,
            op_code,
            error_status: response.code() as u32,
        },
    ).error();
    lemma_cancel_sends_nothing(failed);
    model::lemma_perform_cancel(failed);
    let completed = heard.command_complete(op_code);
    let stopped = completed.to(
        SequencerState { run_mode: RunMode::Stopped, ..completed.state },
    );
    lemma_complete_sends_nothing(stopped);
    model::lemma_sequence_complete(stopped);
    lemma_step_sends(completed, now);
}

/// A record that waits for its time is sent when its time has come, and only once.
pub proof fn law_waiting_record_is_sent_once(t: Trace, now: Time, later: Time, again: Time)
    requires
        t.state.valid(),
        t.state.cmd_timer.armed,
        t.state.cmd_timer.expired(now),
    ensures
        ({
            let after = t.sched(now, later);
            &&& after.out == t.out.push(
                Action::ComCmd { data: t.state.record.command, context: 0 },
            )
            &&& !after.state.cmd_timer.armed
            &&& sent(after.sched(again, again).out) == sent(after.out)
        }),
{
    broadcast use lemma_sent_push;

    let after = t.sched(now, later);
    lemma_cancel_sends_nothing(
        after.log(SequencerEvent::SequenceTimeout { command: after.state.executed_count }),
    );
}

/// A record that is due is sent when it is reached.
proof fn lemma_due_step(t: Trace, now: Time)
    requires
        t.state.sequence.more(),
        due_at(t.state.sequence.records[t.state.sequence.position as int], now),
        t.state.sequence.header.time_base == now.base,
        t.state.sequence.header.time_context == now.context,
        now.wf(),
    ensures
        ({
            let record = t.state.sequence.records[t.state.sequence.position as int];
            let after = t.step(now);
            &&& sent(after.out) == sent(t.out).push(record.command)
            &&& after.state.sequence == SequenceState {
                position: t.state.sequence.position + 1,
                ..t.state.sequence
            }
            &&& after.state.run_mode == t.state.run_mode
            &&& after.state.step_mode == t.state.step_mode
            &&& after.state.sequences_completed_count == t.state.sequences_completed_count
        }),
{
    broadcast use lemma_sent_push;

    reveal(Trace::step);
    let record = t.fetched();
    if record.descriptor == RecordDescriptor::Relative {
        assert(record.time_tag.after(now.seconds, now.useconds) == now);
    }
}

/// A run of which some commands have been answered: the first so many commands have been
/// sent, and one more.
proof fn lemma_run(t: Trace, op_code: u32, cmd_seq: u32, op_codes: Seq<u32>, now: Time)
    requires
        t.state.run_mode == RunMode::Stopped,
        t.state.step_mode == StepMode::Auto,
        now.wf(),
        t.state.sequence.header.time_base == now.base,
        t.state.sequence.header.time_context == now.context,
        t.state.sequence.position == 0,
        op_codes.len() + 1 < t.state.sequence.records.len(),
        forall|i: int|
            0 <= i < t.state.sequence.records.len() - 1 ==> due_at(
                #[trigger] t.state.sequence.records[i],
                now,
            ),
    ensures
        ({
            let run = answered(t.cs_start(op_code, cmd_seq, now), op_codes, now);
            let n = op_codes.len() as int;
            &&& run.state.run_mode == RunMode::Running
            &&& run.state.step_mode == StepMode::Auto
            &&& run.state.sequence == SequenceState {
                position: (n + 1) as nat,
                ..t.state.sequence
            }
            &&& run.state.sequences_completed_count == t.state.sequences_completed_count
            &&& sent(run.out) == sent(t.out) + commands_of(
                t.state.sequence.records.take(n + 1),
            )
        }),
    decreases op_codes.len(),
{
    broadcast use lemma_sent_push;

    let records = t.state.sequence.records;
    let n = op_codes.len() as int;
    let all = commands_of(records.take(n + 1));
    if n == 0 {
        let started = t.to(
            SequencerState {
                block_state: BlockState::NoBlock,
                run_mode: RunMode::Running,
                ..t.state
            },
        ).current_sequence(t.state.sequence.name).log(SequencerEvent::CmdStarted);
        lemma_due_step(started, now);
        assert(sent(t.out).push(records[0].command) =~= sent(t.out) + all);
    } else {
        lemma_run(t, op_code, cmd_seq, op_codes.drop_last(), now);
        let before = answered(t.cs_start(op_code, cmd_seq, now), op_codes.drop_last(), now);
        let completed = before.to(
            SequencerState {
                cmd_timeout_timer: before.state.cmd_timeout_timer.disarmed(),
                ..before.state
            },
        ).command_complete(op_codes.last());
        lemma_due_step(completed, now);
        assert(sent(t.out) + commands_of(records.take(n)).push(records[n].command) =~= sent(
            t.out,
        ) + all);
        assert((sent(t.out) + commands_of(records.take(n))).push(records[n].command) =~= sent(
            t.out,
        ) + all);
    }
}

/// A sequence that is started sends its commands in the order of the file, the next one
/// when the one before was carried out; after the last answer it has come to its end.
/// Stated of sequences whose records are due when they are reached.
pub proof fn law_sequence_is_sent_in_order(
    t: Trace,
    op_code: u32,
    cmd_seq: u32,
    op_codes: Seq<u32>,
    now: Time,
)
    requires
        t.state.valid(),
        t.state.run_mode == RunMode::Stopped,
        t.state.step_mode == StepMode::Auto,
        now.wf(),
        t.state.sequence.header.time_base == now.base,
        t.state.sequence.header.time_context == now.context,
        t.state.sequence.position == 0,
        2 <= t.state.sequence.records.len(),
        op_codes.len() < t.state.sequence.records.len(),
        forall|i: int|
            0 <= i < t.state.sequence.records.len() - 1 ==> due_at(
                #[trigger] t.state.sequence.records[i],
                now,
            ),
        t.state.sequence.records.last().descriptor == RecordDescriptor::EndOfSequence,
    ensures
        ({
            let run = answered(t.cs_start(op_code, cmd_seq, now), op_codes, now);
            let records = t.state.sequence.records;
            if op_codes.len() < records.len() - 1 {
                &&& run.state.run_mode == RunMode::Running
                &&& sent(run.out) == sent(t.out) + commands_of(
                    records.take(op_codes.len() as int + 1),
                )
            } else {
                &&& run.state.run_mode == RunMode::Stopped
                &&& !run.state.sequence.more()
                &&& run.state.sequences_completed_count == counter::bumped(
                    t.state.sequences_completed_count,
                )
                &&& sent(run.out) == sent(t.out) + commands_of(records.drop_last())
            }
        }),
{
    broadcast use lemma_sent_push;

    let records = t.state.sequence.records;
    if op_codes.len() < records.len() - 1 {
        lemma_run(t, op_code, cmd_seq, op_codes, now);
    } else {
        lemma_run(t, op_code, cmd_seq, op_codes.drop_last(), now);
        let before = answered(t.cs_start(op_code, cmd_seq, now), op_codes.drop_last(), now);
        let completed = before.to(
            SequencerState {
                cmd_timeout_timer: before.state.cmd_timeout_timer.disarmed(),
                ..before.state
            },
        ).command_complete(op_codes.last());
        assert(records.take(records.len() - 1) =~= records.drop_last());
        reveal(Trace::step);
        let ended = completed.to(
            SequencerState {
                sequence: SequenceState {
                    position: completed.state.sequence.position + 1,
                    ..completed.state.sequence
                },
                record: completed.fetched(),
                run_mode: RunMode::Stopped,
                ..completed.state
            },
        );
        lemma_complete_sends_nothing(ended);
        model::lemma_sequence_complete(ended);
    }
}

/// A message that arrives, with what the world makes of it: what a load of the file that
/// it asks for gives, and the two readings of the clock.
pub struct Arrival {
    /// The message.
    pub message: Message<Seq<u8>>,
    /// What a load gives.
    pub outcome: LoadOutcome,
    /// The first reading of the clock.
    pub now: Time,
    /// The second reading of the clock.
    pub later: Time,
}

/// Whether a message advances the sequence although a record still waits for its time: an
/// answer to a command that was not sent, or a step.
pub open spec fn untimely(s: SequencerState, m: Message<Seq<u8>>) -> bool {
    s.cmd_timer.armed && match m {
        Message::CmdResponse { .. } => true,
        Message::Cmd { op_code, .. } => model::op_offset(s, op_code)
            == dictionary::OPCODE_CS_STEP,
        _ => false,
    }
}

/// Whether a message can arrive in a run: it is not untimely, and a load that succeeds
/// gives a record.
pub open spec fn arrives(s: SequencerState, a: Arrival) -> bool {
    &&& !untimely(s, a.message)
    &&& a.outcome.result is Ok ==> a.outcome.result->Ok_0.len() > 0
}

/// A message arrives.
#[verifier::opaque]
pub open spec fn received(t: Trace, a: Arrival) -> Trace {
    t.handle(a.message, a.outcome, a.now, a.later)
}

/// How a run stands after its first `n` arrivals.
pub open spec fn moment(t: Trace, arrivals: Seq<Arrival>, n: nat) -> Trace
    decreases n,
{
    if n == 0 {
        t
    } else {
        received(moment(t, arrivals, (n - 1) as nat), arrivals[n - 1])
    }
}

/// How many records have been carried out: all that were read, but for one that still
/// waits for its time.
pub open spec fn carried_out(s: SequencerState) -> int {
    if s.cmd_timer.armed {
        s.sequence.position - 1
    } else {
        s.sequence.position as int
    }
}

/// Whether exactly the commands of the records carried out were sent since `base` was.
pub open spec fn sent_since(base: Seq<Seq<u8>>, t: Trace) -> bool {
    &&& 0 <= carried_out(t.state) <= t.state.sequence.position
        <= t.state.sequence.records.len()
    &&& sent(t.out) == base + commands_of(
        t.state.sequence.records.take(carried_out(t.state)),
    )
}

/// What a running sequence keeps: besides what was sent, the record in execution is the
/// last one read while it waits for its time.
spec fn tracks(base: Seq<Seq<u8>>, t: Trace) -> bool {
    &&& sent_since(base, t)
    &&& t.state.cmd_timer.armed ==> t.state.record.command
        == t.state.sequence.records[t.state.sequence.position - 1].command
}

/// What a message leaves: a sequence that still runs keeps track; one that stops has sent
/// nothing more.
spec fn goes_on(base: Seq<Seq<u8>>, t: Trace, r: Trace) -> bool {
    if r.state.run_mode == RunMode::Running {
        &&& tracks(base, r)
        &&& r.state.sequence.records == t.state.sequence.records
    } else {
        &&& sent(r.out) == sent(t.out)
        &&& !r.state.cmd_timer.armed
        &&& r.state.sequence.position == 0
    }
}

/// What a message leaves where nothing ran: nothing was sent, or a sequence has begun.
spec fn begins(t: Trace, r: Trace) -> bool {
    if r.state.run_mode == RunMode::Running {
        tracks(sent(t.out), r)
    } else {
        &&& sent(r.out) == sent(t.out)
        &&& !r.state.cmd_timer.armed
        &&& r.state.sequence.position == 0
    }
}

pub(crate) proof fn lemma_load_sends_nothing(t: Trace, name: Seq<u8>, outcome: LoadOutcome)
    ensures
        sent(t.load(name, outcome).out) == sent(t.out),
        t.load(name, outcome).state.sequence.position == 0,
        outcome.result is Ok ==> t.load(name, outcome).state.sequence.records
            == outcome.result->Ok_0,
{
    broadcast use lemma_sent_push;

    reveal(Trace::load);
}

/// One more record is one more command.
proof fn lemma_one_more(records: Seq<WireRecord>, n: int)
    requires
        0 <= n < records.len(),
    ensures
        commands_of(records.take(n + 1)) == commands_of(records.take(n)).push(records[n].command),
{
    assert(commands_of(records.take(n + 1)) =~= commands_of(records.take(n)).push(
        records[n].command,
    ));
}

/// A step from a record that was carried out to the next.
proof fn lemma_step_tracks(base: Seq<Seq<u8>>, t: Trace, now: Time)
    requires
        t.state.run_mode == RunMode::Running,
        t.state.sequence.more(),
        !t.state.cmd_timer.armed,
        sent_since(base, t),
    ensures
        goes_on(base, t, t.step(now)),
{
    broadcast use lemma_sent_push;

    reveal(Trace::step);
    let position = t.state.sequence.position as int;
    let records = t.state.sequence.records;
    lemma_one_more(records, position);
    let ended = t.to(
        SequencerState {
            sequence: SequenceState {
                position: t.state.sequence.position + 1,
                ..t.state.sequence
            },
            record: t.fetched(),
            run_mode: RunMode::Stopped,
            ..t.state
        },
    );
    lemma_complete_sends_nothing(ended);
    model::lemma_sequence_complete(ended);
    let before = base + commands_of(records.take(position));
    assert(before.push(records[position].command) =~= base + commands_of(
        records.take(position + 1),
    ));
}

/// A sequence that begins to run on its own.
proof fn lemma_start_tracks(t: Trace, now: Time)
    requires
        t.state.sequence.more(),
        t.state.sequence.position == 0,
        !t.state.cmd_timer.armed,
    ensures
        goes_on(sent(t.out), t, t.start_auto(now)),
{
    broadcast use lemma_sent_push;

    reveal(Trace::start_auto);
    let started = t.to(
        SequencerState { run_mode: RunMode::Running, ..t.state },
    ).current_sequence(t.state.sequence.name).seq_start();
    assert(sent(started.out) =~= sent(t.out) + commands_of(t.state.sequence.records.take(0)));
    lemma_step_tracks(sent(t.out), started, now);
}

/// What a command does while nothing runs.
proof fn lemma_command_when_stopped(
    t: Trace,
    op_code: u32,
    cmd_seq: u32,
    args: Seq<u8>,
    a: Arrival,
)
    requires
        t.state.run_mode == RunMode::Stopped,
        t.state.sequence.position == 0,
        !t.state.cmd_timer.armed,
        a.outcome.result is Ok ==> a.outcome.result->Ok_0.len() > 0,
    ensures
        ({
            let r = t.command(op_code, cmd_seq, args, a.outcome, a.now, a.later);
            begins(t, r)
        }),
{
    broadcast use lemma_sent_push;

    let offset = model::op_offset(t.state, op_code);
    if offset == dictionary::OPCODE_CS_RUN {
        if model::run_args(args) is Ok {
            let run = model::run_args(args)->Ok_0;
            let taken = t.to(
                SequencerState { block_state: run.block, op_code, cmd_seq, ..t.state },
            );
            lemma_load_sends_nothing(taken, run.name, a.outcome);
            model::lemma_load(taken, run.name, a.outcome);
            let loaded = taken.load(run.name, a.outcome);
            let ready = loaded.to(SequencerState { executed_count: 0, ..loaded.state });
            if a.outcome.result is Ok {
                lemma_start_tracks(ready, a.later);
            }
        }
    } else if offset == dictionary::OPCODE_CS_VALIDATE {
        if model::validate_args(args) is Some {
            let name = model::validate_args(args)->0;
            lemma_load_sends_nothing(t, name, a.outcome);
            model::lemma_load(t, name, a.outcome);
        }
    } else if offset == dictionary::OPCODE_CS_START && t.state.sequence.more() {
        let started = t.to(
            SequencerState {
                block_state: BlockState::NoBlock,
                run_mode: RunMode::Running,
                ..t.state
            },
        ).current_sequence(t.state.sequence.name).log(SequencerEvent::CmdStarted);
        assert(sent(started.out) =~= sent(t.out) + commands_of(
            t.state.sequence.records.take(0),
        ));
        lemma_step_tracks(sent(t.out), started, a.now);
    }
}

/// What a request of another component does while nothing runs.
proof fn lemma_port_run_when_stopped(t: Trace, name: Seq<u8>, a: Arrival)
    requires
        t.state.run_mode == RunMode::Stopped,
        t.state.sequence.position == 0,
        !t.state.cmd_timer.armed,
        a.outcome.result is Ok ==> a.outcome.result->Ok_0.len() > 0,
    ensures
        begins(t, t.port_run(name, a.outcome, a.now, a.later)),
{
    broadcast use lemma_sent_push;

    let short = model::command_name(name);
    lemma_load_sends_nothing(t, short, a.outcome);
    model::lemma_load(t, short, a.outcome);
    let loaded = if name.len() > 0 {
        t.load(short, a.outcome)
    } else {
        t
    };
    let ready = loaded.to(SequencerState { executed_count: 0, ..loaded.state });
    if ready.state.sequence.more() {
        lemma_start_tracks(
            ready,
            if name.len() > 0 {
                a.later
            } else {
                a.now
            },
        );
    }
}

/// What arrives while nothing runs sends nothing, or starts a sequence.
proof fn lemma_handle_when_stopped(t: Trace, a: Arrival)
    requires
        t.state.run_mode == RunMode::Stopped,
        t.state.sequence.position == 0,
        !t.state.cmd_timer.armed,
        arrives(t.state, a),
    ensures
        begins(t, received(t, a)),
{
    broadcast use lemma_sent_push;

    reveal(received);

    match a.message {
        Message::Cmd { op_code, cmd_seq, args } => {
            lemma_command_when_stopped(t, op_code, cmd_seq, args, a);
        },
        Message::SeqRun { name, .. } => {
            lemma_port_run_when_stopped(t, name, a);
        },
        Message::SeqDispatch { name } => {
            lemma_port_run_when_stopped(t, name, a);
        },
        Message::Sched { .. } => {
            let timed_out = t.log(
                SequencerEvent::SequenceTimeout { command: t.state.executed_count },
            );
            lemma_cancel_sends_nothing(timed_out);
            model::lemma_perform_cancel(timed_out);
        },
        _ => {},
    }
}

/// What a command does while a sequence runs.
proof fn lemma_command_when_running(
    base: Seq<Seq<u8>>,
    t: Trace,
    op_code: u32,
    cmd_seq: u32,
    args: Seq<u8>,
    a: Arrival,
)
    requires
        t.state.run_mode == RunMode::Running,
        tracks(base, t),
        model::op_offset(t.state, op_code) == dictionary::OPCODE_CS_STEP
            ==> !t.state.cmd_timer.armed,
    ensures
        goes_on(base, t, t.command(op_code, cmd_seq, args, a.outcome, a.now, a.later)),
{
    broadcast use lemma_sent_push;

    lemma_cancel_sends_nothing(t);
    model::lemma_perform_cancel(t);
    if model::op_offset(t.state, op_code) == dictionary::OPCODE_CS_STEP
        && t.state.sequence.more() {
        lemma_step_tracks(base, t, a.now);
    }
}

/// What an answer does while a sequence runs.
proof fn lemma_answer_when_running(
    base: Seq<Seq<u8>>,
    t: Trace,
    op_code: u32,
    response: CmdResponse,
    now: Time,
)
    requires
        t.state.run_mode == RunMode::Running,
        tracks(base, t),
        !t.state.cmd_timer.armed,
    ensures
        goes_on(base, t, t.cmd_response(op_code, response, now)),
{
    broadcast use lemma_sent_push;

    let heard = t.to(
        SequencerState { cmd_timeout_timer: t.state.cmd_timeout_timer.disarmed(), ..t.state },
    );
    let failed = heard.log(
        SequencerEvent::CommandError {
            record_number: t.state.executed_count,
            op_code,
            error_status: response.code() as u32,
        },
    ).error();
    lemma_cancel_sends_nothing(failed);
    model::lemma_perform_cancel(failed);
    let completed = heard.command_complete(op_code);
    let stopped = completed.to(
        SequencerState { run_mode: RunMode::Stopped, ..completed.state },
    );
    lemma_complete_sends_nothing(stopped);
    model::lemma_sequence_complete(stopped);
    if t.state.sequence.more() {
        lemma_step_tracks(base, completed, now);
    }
}

/// What a tick does while a sequence runs.
proof fn lemma_tick_when_running(base: Seq<Seq<u8>>, t: Trace, now: Time, later: Time)
    requires
        t.state.run_mode == RunMode::Running,
        tracks(base, t),
    ensures
        goes_on(base, t, t.sched(now, later)),
{
    broadcast use lemma_sent_push;

    let timed_out = t.log(SequencerEvent::SequenceTimeout { command: t.state.executed_count });
    lemma_cancel_sends_nothing(timed_out);
    model::lemma_perform_cancel(timed_out);
    if t.state.cmd_timer.armed {
        let n = carried_out(t.state);
        let records = t.state.sequence.records;
        lemma_one_more(records, n);
        assert((base + commands_of(records.take(n))).push(records[n].command) =~= base
            + commands_of(records.take(n + 1)));
    }
}

/// What canceling does while a sequence runs.
proof fn lemma_cancel_when_running(base: Seq<Seq<u8>>, t: Trace)
    requires
        t.state.run_mode == RunMode::Running,
    ensures
        goes_on(base, t, t.cancel_sequence()),
{
    broadcast use lemma_sent_push;

    lemma_cancel_sends_nothing(t);
    model::lemma_perform_cancel(t);
}

/// What a request of another component does while a sequence runs.
proof fn lemma_port_run_when_running(base: Seq<Seq<u8>>, t: Trace, name: Seq<u8>, a: Arrival)
    requires
        t.state.run_mode == RunMode::Running,
        tracks(base, t),
    ensures
        goes_on(base, t, t.port_run(name, a.outcome, a.now, a.later)),
{
    broadcast use lemma_sent_push;

}

/// Whatever arrives in time, a sequence that runs keeps track of what it sent.
proof fn lemma_handle_when_running(base: Seq<Seq<u8>>, t: Trace, a: Arrival)
    requires
        t.state.run_mode == RunMode::Running,
        tracks(base, t),
        arrives(t.state, a),
    ensures
        goes_on(base, t, received(t, a)),
{
    reveal(received);
    match a.message {
        Message::SeqCancel => {
            lemma_cancel_when_running(base, t);
        },
        Message::CmdResponse { op_code, cmd_seq, response } => {
            lemma_answer_when_running(base, t, op_code, response, a.now);
        },
        Message::Sched { .. } => {
            lemma_tick_when_running(base, t, a.now, a.later);
        },
        Message::Cmd { op_code, cmd_seq, args } => {
            lemma_command_when_running(base, t, op_code, cmd_seq, args, a);
        },
        Message::SeqRun { name, .. } => {
            lemma_port_run_when_running(base, t, name, a);
        },
        Message::SeqDispatch { name } => {
            lemma_port_run_when_running(base, t, name, a);
        },
        Message::Ping { key } => {
            lemma_sent_push(t.out, Action::Ping { key });
        },
    }
}

/// While nothing runs, no record waits for its time and none has been read.
proof fn lemma_at_rest(t: Trace, arrivals: Seq<Arrival>, n: nat)
    requires
        t.state.run_mode == RunMode::Stopped,
        !t.state.cmd_timer.armed,
        t.state.sequence.position == 0,
        n <= arrivals.len(),
        forall|k: nat|
            k < arrivals.len() ==> arrives(
                (#[trigger] moment(t, arrivals, k)).state,
                arrivals[k as int],
            ),
    ensures
        ({
            let now = moment(t, arrivals, n);
            if now.state.run_mode == RunMode::Running {
                exists|base: Seq<Seq<u8>>| tracks(base, now)
            } else {
                !now.state.cmd_timer.armed && now.state.sequence.position == 0
            }
        }),
    decreases n,
{
    if n > 0 {
        let k = (n - 1) as nat;
        let before = moment(t, arrivals, k);
        lemma_at_rest(t, arrivals, k);
        if before.state.run_mode == RunMode::Running {
            let base = choose|base: Seq<Seq<u8>>| tracks(base, before);
            lemma_handle_when_running(base, before, arrivals[k as int]);
        } else {
            lemma_handle_when_stopped(before, arrivals[k as int]);
        }
    }
}

/// While a sequence runs, exactly the commands of the records read so far have been sent
/// since it was started, each once and in the order of the file, but for a record that
/// still waits for its time. What ends the sequence sends nothing. It does not matter how
/// the sequence was started, when its records are due, how the clock runs, whether it ends
/// in an end record, or what else arrives; only that no answer and no step comes while a
/// record waits for its time.
pub proof fn law_records_read_are_sent(t: Trace, arrivals: Seq<Arrival>, i: nat, n: nat)
    requires
        t.state.valid(),
        t.state.run_mode == RunMode::Stopped,
        !t.state.cmd_timer.armed,
        t.state.sequence.position == 0,
        forall|k: nat|
            k < arrivals.len() ==> arrives(
                (#[trigger] moment(t, arrivals, k)).state,
                arrivals[k as int],
            ),
        i < n <= arrivals.len(),
        moment(t, arrivals, i).state.run_mode == RunMode::Stopped,
        forall|k: nat|
            i < k < n ==> (#[trigger] moment(t, arrivals, k)).state.run_mode == RunMode::Running,
    ensures
        ({
            let start = moment(t, arrivals, i);
            let now = moment(t, arrivals, n);
            if now.state.run_mode == RunMode::Running {
                sent_since(sent(start.out), now)
            } else {
                sent(now.out) == sent(moment(t, arrivals, (n - 1) as nat).out)
            }
        }),
{
    lemma_tracks_since(t, arrivals, i, n);
}

proof fn lemma_tracks_since(t: Trace, arrivals: Seq<Arrival>, i: nat, n: nat)
    requires
        t.state.run_mode == RunMode::Stopped,
        !t.state.cmd_timer.armed,
        t.state.sequence.position == 0,
        forall|k: nat|
            k < arrivals.len() ==> arrives(
                (#[trigger] moment(t, arrivals, k)).state,
                arrivals[k as int],
            ),
        i < n <= arrivals.len(),
        moment(t, arrivals, i).state.run_mode == RunMode::Stopped,
        forall|k: nat|
            i < k < n ==> (#[trigger] moment(t, arrivals, k)).state.run_mode == RunMode::Running,
    ensures
        ({
            let start = moment(t, arrivals, i);
            let now = moment(t, arrivals, n);
            if now.state.run_mode == RunMode::Running {
                tracks(sent(start.out), now)
            } else {
                sent(now.out) == sent(moment(t, arrivals, (n - 1) as nat).out)
            }
        }),
    decreases n,
{
    let k = (n - 1) as nat;
    let before = moment(t, arrivals, k);
    if k == i {
        lemma_at_rest(t, arrivals, k);
        lemma_handle_when_stopped(before, arrivals[k as int]);
    } else {
        lemma_tracks_since(t, arrivals, i, k);
        lemma_handle_when_running(
            sent(moment(t, arrivals, i).out),
            before,
            arrivals[k as int],
        );
    }
}

} // verus!
