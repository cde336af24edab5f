//! What each input does to the sequencer and what it puts out, and that it does nothing
//! else.
use vstd::prelude::*;

use super::dictionary::{Action, SequencerEvent};
use super::format::{LoadOutcome, Sequence, SequenceState};
use super::messages::Message;
use super::model;
use super::model::{Inputs, RunArgs, SequencerState, Trace};
use super::timer::Timer;
use super::types::{
    BlockState, RecordDescriptor, RunMode, SeqMode, SequenceLoadEvent, SequenceRecord, StepMode,
};
use crate::fw::bytes;
use crate::fw::time::Time;
use crate::fw::types::CmdResponse;

verus! {

/// An output as contracts see it.
pub type Output = Action<Seq<u8>>;

/// One output on a condition.
pub open spec fn only_if(condition: bool, a: Output) -> Seq<Output> {
    if condition {
        seq![a]
    } else {
        Seq::empty()
    }
}

/// The name that is reported while no sequence is running.
pub open spec fn idle_name() -> Seq<u8> {
    seq![
        '<' as u8,
        'n' as u8,
        'o' as u8,
        ' ' as u8,
        's' as u8,
        'e' as u8,
        'q' as u8,
        '>' as u8,
    ]
}

/// A command that does not go with the mode, or finds nothing to work on, is reported and
/// answered.
pub open spec fn refused(
    t: Trace,
    event: SequencerEvent,
    op_code: u32,
    cmd_seq: u32,
    response: CmdResponse,
) -> Trace {
    Trace {
        state: t.state,
        out: t.out.push(Action::Event { event, name: Seq::empty() }).push(
            Action::CmdResponse { op_code, cmd_seq, response },
        ),
    }
}

/// The end of a sequence is counted and reported, announced to whoever listens, and answers
/// the command that waits for it. Nothing stays loaded, nobody waits any more, and no
/// sequence is named as running.
pub proof fn law_end_of_sequence(t: Trace)
    ensures
        ({
            let s = t.state;
            let after = t.sequence_complete();
            let n = ((s.sequences_completed_count + 1) % 0x1_0000_0000) as u32;
            let waits = s.block_state == BlockState::Block || s.join_waiting;
            &&& after.state == (SequencerState {
                sequences_completed_count: n,
                sequence: SequenceState { records: Seq::empty(), position: 0, ..s.sequence },
                executed_count: 0,
                join_waiting: false,
                block_state: BlockState::NoBlock,
                last_current_sequence: Some(idle_name()),
                ..s
            })
            &&& after.out == t.out + seq![
                Action::Event { event: SequencerEvent::SequenceComplete, name: s.sequence.name },
                Action::Counter { channel: 4, value: n },
            ] + only_if(
                s.seq_done,
                Action::SeqDone { op_code: 0, cmd_seq: 0, response: CmdResponse::OK },
            ) + only_if(
                waits,
                Action::CmdResponse {
                    op_code: s.op_code,
                    cmd_seq: s.cmd_seq,
                    response: CmdResponse::OK,
                },
            ) + only_if(
                s.last_current_sequence != Some(idle_name()),
                Action::CurrentSequence { name: idle_name() },
            )
        }),
{
    reveal(Trace::sequence_complete);
    assert(model::no_seq_name() =~= idle_name());
    let s = t.state;
    let after = t.sequence_complete();
    let n = ((s.sequences_completed_count + 1) % 0x1_0000_0000) as u32;
    let waits = s.block_state == BlockState::Block || s.join_waiting;
    assert(after.out =~= t.out + seq![
        Action::Event { event: SequencerEvent::SequenceComplete, name: s.sequence.name },
        Action::Counter { channel: 4, value: n },
    ] + only_if(
        s.seq_done,
        Action::SeqDone { op_code: 0, cmd_seq: 0, response: CmdResponse::OK },
    ) + only_if(
        waits,
        Action::CmdResponse { op_code: s.op_code, cmd_seq: s.cmd_seq, response: CmdResponse::OK },
    ) + only_if(
        s.last_current_sequence != Some(idle_name()),
        Action::CurrentSequence { name: idle_name() },
    ));
}

/// A sequence that is given up stops and goes back to its first record, and its records stay
/// loaded. Neither timer runs any more. Whoever listens is told that it failed, and so is
/// the command that waits for its end.
pub proof fn law_abandoned_sequence(t: Trace)
    ensures
        ({
            let s = t.state;
            let after = t.perform_cancel();
            let waits = s.block_state == BlockState::Block || s.join_waiting;
            &&& after.state == (SequencerState {
                sequence: SequenceState { position: 0, ..s.sequence },
                run_mode: RunMode::Stopped,
                cmd_timer: Timer { armed: false, ..s.cmd_timer },
                cmd_timeout_timer: Timer { armed: false, ..s.cmd_timeout_timer },
                executed_count: 0,
                join_waiting: false,
                block_state: BlockState::NoBlock,
                ..s
            })
            &&& after.out == t.out + only_if(
                s.seq_done,
                Action::SeqDone { op_code: 0, cmd_seq: 0, response: CmdResponse::ExecutionError },
            ) + only_if(
                waits,
                Action::CmdResponse {
                    op_code: s.op_code,
                    cmd_seq: s.cmd_seq,
                    response: CmdResponse::ExecutionError,
                },
            )
        }),
{
    reveal(Trace::perform_cancel);
    let s = t.state;
    let after = t.perform_cancel();
    let waits = s.block_state == BlockState::Block || s.join_waiting;
    assert(after.out =~= t.out + only_if(
        s.seq_done,
        Action::SeqDone { op_code: 0, cmd_seq: 0, response: CmdResponse::ExecutionError },
    ) + only_if(
        waits,
        Action::CmdResponse {
            op_code: s.op_code,
            cmd_seq: s.cmd_seq,
            response: CmdResponse::ExecutionError,
        },
    ));
}

/// A step takes the next record. One with a command is due at its time: at the time of its
/// tag, or that long after now, on the clock of the sequence. If that is not after now the
/// command goes out at once and is watched; otherwise nothing goes out and the record waits
/// for its time. Nothing else changes.
pub proof fn law_step_takes_one_record(t: Trace, now: Time)
    requires
        t.state.sequence.position < t.state.sequence.records.len(),
        now.wf(),
        ({
            let w = t.state.sequence.records[t.state.sequence.position as int];
            w.descriptor != RecordDescriptor::EndOfSequence && w.useconds < 1_000_000
        }),
    ensures
        ({
            let s = t.state;
            let w = s.sequence.records[s.sequence.position as int];
            let after = t.step(now);
            let tag = after.state.record.time_tag;
            let due = now.base == tag.base && now.context == tag.context && (now.seconds
                > tag.seconds || now.seconds == tag.seconds && now.useconds >= tag.useconds);
            let watched = due && s.timeout > 0 && s.step_mode == StepMode::Auto;
            let carry = if w.useconds + now.useconds >= 1_000_000 {
                1int
            } else {
                0int
            };
            &&& after.state.record.descriptor == w.descriptor
            &&& after.state.record.command == w.command
            &&& tag.base == s.sequence.header.time_base
            &&& tag.context == s.sequence.header.time_context
            &&& w.descriptor == RecordDescriptor::Absolute ==> tag.seconds == w.seconds
                && tag.useconds == w.useconds
            &&& w.descriptor == RecordDescriptor::Relative ==> tag.seconds == (w.seconds
                + now.seconds + carry) % 0x1_0000_0000 && tag.useconds == w.useconds + now.useconds
                - carry * 1_000_000
            &&& after.out == t.out + only_if(
                due,
                Action::ComCmd { data: w.command, context: 0 },
            )
            &&& after.state.cmd_timer == if due {
                s.cmd_timer
            } else {
                Timer { armed: true, expiration: tag }
            }
            &&& !watched ==> after.state.cmd_timeout_timer == s.cmd_timeout_timer
            &&& watched ==> after.state.cmd_timeout_timer == (Timer {
                armed: true,
                expiration: Time {
                    seconds: ((now.seconds + s.timeout) % 0x1_0000_0000) as u32,
                    ..now
                },
            })
            &&& after.state == (SequencerState {
                sequence: SequenceState { position: s.sequence.position + 1, ..s.sequence },
                record: after.state.record,
                cmd_timer: after.state.cmd_timer,
                cmd_timeout_timer: after.state.cmd_timeout_timer,
                ..s
            })
        }),
{
    reveal(Trace::step);
    let w = t.state.sequence.records[t.state.sequence.position as int];
    let after = t.step(now);
    let tag = after.state.record.time_tag;
    let due = now.base == tag.base && now.context == tag.context && (now.seconds > tag.seconds
        || now.seconds == tag.seconds && now.useconds >= tag.useconds);
    assert(after.out =~= t.out + only_if(due, Action::ComCmd { data: w.command, context: 0 }));
}

/// A step that takes an end record stops the sequence, which has come to its end; the
/// command of the record before stays in memory.
pub proof fn law_step_takes_end_record(t: Trace, now: Time)
    requires
        t.state.sequence.position < t.state.sequence.records.len(),
        t.state.sequence.records[t.state.sequence.position as int].descriptor
            == RecordDescriptor::EndOfSequence,
    ensures
        ({
            let s = t.state;
            t.step(now) == (Trace {
                state: SequencerState {
                    sequence: SequenceState { position: s.sequence.position + 1, ..s.sequence },
                    record: SequenceRecord {
                        descriptor: RecordDescriptor::EndOfSequence,
                        time_tag: Time {
                            base: s.sequence.header.time_base,
                            context: s.sequence.header.time_context,
                            ..s.record.time_tag
                        },
                        command: s.record.command,
                    },
                    run_mode: RunMode::Stopped,
                    ..s
                },
                out: t.out,
            }).sequence_complete()
        }),
{
    reveal(Trace::step);
}

/// A load that succeeds has the records of the file loaded, from the first on, and is
/// reported and counted. The name and the header are those of the file. Nothing else
/// changes.
pub proof fn law_load_succeeds(t: Trace, name: Seq<u8>, outcome: LoadOutcome)
    requires
        outcome.result is Ok,
    ensures
        ({
            let s = t.state;
            let after = t.load(name, outcome);
            let n = ((s.load_cmd_count + 1) % 0x1_0000_0000) as u32;
            &&& after.state == (SequencerState {
                sequence: SequenceState {
                    capacity: s.sequence.capacity,
                    name,
                    header: if outcome.header is Some {
                        outcome.header->0
                    } else {
                        s.sequence.header
                    },
                    records: outcome.result->Ok_0,
                    position: 0,
                },
                load_cmd_count: n,
                ..s
            })
            &&& after.out == t.out + seq![
                Action::Event { event: SequencerEvent::SequenceLoaded, name },
                Action::Counter { channel: 0, value: n },
            ]
        }),
{
    reveal(Trace::load);
    let after = t.load(name, outcome);
    let n = ((t.state.load_cmd_count + 1) % 0x1_0000_0000) as u32;
    assert(after.out =~= t.out + seq![
        Action::Event { event: SequencerEvent::SequenceLoaded, name },
        Action::Counter { channel: 0, value: n },
    ]);
}

/// The event that reports why a load failed.
pub open spec fn event_of(reason: SequenceLoadEvent) -> SequencerEvent {
    match reason {
        SequenceLoadEvent::FileNotFound => SequencerEvent::FileNotFound,
        SequenceLoadEvent::FileReadError => SequencerEvent::FileReadError,
        SequenceLoadEvent::FileInvalid { stage, error } => SequencerEvent::FileInvalid {
            stage,
            error,
        },
        SequenceLoadEvent::FileSizeError { size } => SequencerEvent::FileSizeError { size },
        SequenceLoadEvent::FileCrcFailure { stored, computed } => SequencerEvent::FileCrcFailure {
            stored,
            computed,
        },
        SequenceLoadEvent::RecordInvalid { record_number, error } => SequencerEvent::RecordInvalid {
            record_number,
            error,
        },
        SequenceLoadEvent::RecordMismatch {
            header_records,
            extra_bytes,
        } => SequencerEvent::RecordMismatch { header_records, extra_bytes },
        SequenceLoadEvent::TimeBaseMismatch { current, seq } => SequencerEvent::TimeBaseMismatch {
            current,
            seq,
        },
        SequenceLoadEvent::TimeContextMismatch {
            current,
            seq,
        } => SequencerEvent::TimeContextMismatch { current, seq },
        SequenceLoadEvent::NoRecords => SequencerEvent::NoRecords,
    }
}

/// A load that fails leaves nothing loaded, under the new name, and is reported with the
/// reason. It counts as an error unless bytes were left over. Nothing else changes.
pub proof fn law_load_fails(t: Trace, name: Seq<u8>, outcome: LoadOutcome)
    requires
        outcome.result is Err,
    ensures
        ({
            let s = t.state;
            let after = t.load(name, outcome);
            let reason = outcome.result->Err_0;
            let n = ((s.error_count + 1) % 0x1_0000_0000) as u32;
            let counts = !(reason is RecordMismatch);
            &&& after.state == (SequencerState {
                sequence: SequenceState {
                    capacity: s.sequence.capacity,
                    name,
                    header: if outcome.header is Some {
                        outcome.header->0
                    } else {
                        s.sequence.header
                    },
                    records: Seq::empty(),
                    position: 0,
                },
                error_count: if counts {
                    n
                } else {
                    s.error_count
                },
                ..s
            })
            &&& after.out == t.out + seq![Action::Event { event: event_of(reason), name }]
                + only_if(counts, Action::Counter { channel: 2, value: n })
        }),
{
    reveal(Trace::load);
    let after = t.load(name, outcome);
    let reason = outcome.result->Err_0;
    let n = ((t.state.error_count + 1) % 0x1_0000_0000) as u32;
    assert(after.out =~= t.out + seq![Action::Event { event: event_of(reason), name }] + only_if(
        !(reason is RecordMismatch),
        Action::Counter { channel: 2, value: n },
    ));
}

/// A sequence that begins to run on its own is named as running, its start is announced to
/// whoever listens, and its first record is taken.
pub proof fn law_sequence_begins(t: Trace, now: Time)
    ensures
        ({
            let s = t.state;
            let name = s.sequence.name;
            t.start_auto(now) == (Trace {
                state: SequencerState {
                    run_mode: RunMode::Running,
                    last_current_sequence: Some(name),
                    ..s
                },
                out: t.out + only_if(
                    s.last_current_sequence != Some(name),
                    Action::CurrentSequence { name },
                ) + only_if(
                    s.seq_start,
                    Action::SeqStart {
                        file_name: name,
                        args_size: 0,
                        args: Seq::new(255, |i: int| 0u8),
                    },
                ),
            }).step(now)
        }),
{
    reveal(Trace::start_auto);
    let s = t.state;
    let name = s.sequence.name;
    let begun = Trace {
        state: SequencerState {
            run_mode: RunMode::Running,
            last_current_sequence: Some(name),
            ..s
        },
        out: t.out + only_if(
            s.last_current_sequence != Some(name),
            Action::CurrentSequence { name },
        ) + only_if(
            s.seq_start,
            Action::SeqStart { file_name: name, args_size: 0, args: Seq::new(255, |i: int| 0u8) },
        ),
    };
    let running = t.to(SequencerState { run_mode: RunMode::Running, ..s });
    assert(running.current_sequence(name).seq_start() =~= begun);
}

/// The command to run a file is refused while a sequence runs, and where it would wait for
/// the end of a sequence that is stepped by hand.
pub proof fn law_run_is_refused(
    t: Trace,
    op_code: u32,
    cmd_seq: u32,
    args: RunArgs,
    outcome: LoadOutcome,
    later: Time,
)
    requires
        t.state.run_mode == RunMode::Running || args.block == BlockState::Block
            && t.state.step_mode == StepMode::Manual,
    ensures
        ({
            let after = t.cs_run(op_code, cmd_seq, args, outcome, later);
            let joined = t.state.run_mode == RunMode::Running && t.state.join_waiting;
            &&& after.state == t.state
            &&& after.out == t.out + seq![
                Action::Event { event: SequencerEvent::InvalidMode, name: Seq::empty() },
            ] + only_if(
                joined,
                Action::Event { event: SequencerEvent::JoinWaitingNotComplete, name: Seq::empty() },
            ) + seq![
                Action::CmdResponse { op_code, cmd_seq, response: CmdResponse::ExecutionError },
            ]
        }),
{
    let after = t.cs_run(op_code, cmd_seq, args, outcome, later);
    let joined = t.state.run_mode == RunMode::Running && t.state.join_waiting;
    assert(after.out =~= t.out + seq![
        Action::Event { event: SequencerEvent::InvalidMode, name: Seq::empty() },
    ] + only_if(
        joined,
        Action::Event { event: SequencerEvent::JoinWaitingNotComplete, name: Seq::empty() },
    ) + seq![Action::CmdResponse { op_code, cmd_seq, response: CmdResponse::ExecutionError }]);
}

/// Otherwise the file is loaded. If that fails the command is answered with the failure and
/// waits for nothing. If it succeeds the sequence begins to run, unless it is stepped by
/// hand; the command is answered at once, unless it waits for the end of the sequence.
pub proof fn law_run(
    t: Trace,
    op_code: u32,
    cmd_seq: u32,
    args: RunArgs,
    outcome: LoadOutcome,
    later: Time,
)
    requires
        t.state.run_mode == RunMode::Stopped,
        args.block == BlockState::NoBlock || t.state.step_mode == StepMode::Auto,
    ensures
        ({
            let after = t.cs_run(op_code, cmd_seq, args, outcome, later);
            let asked = Trace {
                state: SequencerState { block_state: args.block, op_code, cmd_seq, ..t.state },
                out: t.out,
            };
            let loaded = asked.load(args.name, outcome);
            let ready = Trace {
                state: SequencerState { executed_count: 0, ..loaded.state },
                out: loaded.out,
            };
            let ok = Action::CmdResponse { op_code, cmd_seq, response: CmdResponse::OK };
            &&& outcome.result is Err ==> after == (Trace {
                state: SequencerState {
                    block_state: BlockState::NoBlock,
                    op_code: 0,
                    cmd_seq: 0,
                    ..loaded.state
                },
                out: loaded.out.push(
                    Action::CmdResponse { op_code, cmd_seq, response: CmdResponse::ExecutionError },
                ),
            })
            &&& outcome.result is Ok && t.state.step_mode == StepMode::Manual ==> after == (Trace {
                state: ready.state,
                out: ready.out.push(ok),
            })
            &&& outcome.result is Ok && t.state.step_mode == StepMode::Auto && args.block
                == BlockState::NoBlock ==> after == (Trace {
                state: ready.start_auto(later).state,
                out: ready.start_auto(later).out.push(ok),
            })
            &&& outcome.result is Ok && t.state.step_mode == StepMode::Auto && args.block
                == BlockState::Block ==> after == ready.start_auto(later)
        }),
{
}

/// The command to validate a file is refused while a sequence runs. Otherwise it loads the
/// file and says how that went; in either case nothing is left loaded.
pub proof fn law_validate(
    t: Trace,
    op_code: u32,
    cmd_seq: u32,
    name: Seq<u8>,
    outcome: LoadOutcome,
)
    ensures
        ({
            let after = t.cs_validate(op_code, cmd_seq, name, outcome);
            let loaded = t.load(name, outcome);
            &&& t.state.run_mode == RunMode::Running ==> after == refused(
                t,
                SequencerEvent::InvalidMode,
                op_code,
                cmd_seq,
                CmdResponse::ExecutionError,
            )
            &&& t.state.run_mode == RunMode::Stopped && outcome.result is Err ==> after == (Trace {
                state: loaded.state,
                out: loaded.out.push(
                    Action::CmdResponse { op_code, cmd_seq, response: CmdResponse::ExecutionError },
                ),
            })
            &&& t.state.run_mode == RunMode::Stopped && outcome.result is Ok ==> after == (Trace {
                state: SequencerState {
                    sequence: SequenceState {
                        records: Seq::empty(),
                        position: 0,
                        ..loaded.state.sequence
                    },
                    ..loaded.state
                },
                out: loaded.out + seq![
                    Action::Event { event: SequencerEvent::SequenceValid, name },
                    Action::CmdResponse { op_code, cmd_seq, response: CmdResponse::OK },
                ],
            })
        }),
{
    model::lemma_load(t, name, outcome);
    let after = t.cs_validate(op_code, cmd_seq, name, outcome);
    let loaded = t.load(name, outcome);
    if t.state.run_mode == RunMode::Stopped && outcome.result is Ok {
        assert(after.out =~= loaded.out + seq![
            Action::Event { event: SequencerEvent::SequenceValid, name },
            Action::CmdResponse { op_code, cmd_seq, response: CmdResponse::OK },
        ]);
    }
}

/// A running sequence that is canceled is given up, which is reported and counted; where none
/// runs, that is reported. The command to cancel is answered with success either way.
pub proof fn law_cancel(t: Trace, op_code: u32, cmd_seq: u32)
    ensures
        ({
            let s = t.state;
            let after = t.cancel_sequence();
            let given_up = t.perform_cancel();
            let n = ((s.cancel_cmd_count + 1) % 0x1_0000_0000) as u32;
            &&& s.run_mode == RunMode::Running ==> after == (Trace {
                state: SequencerState { cancel_cmd_count: n, ..given_up.state },
                out: given_up.out + seq![
                    Action::Event { event: SequencerEvent::SequenceCanceled, name: s.sequence.name },
                    Action::Counter { channel: 1, value: n },
                ],
            })
            &&& s.run_mode == RunMode::Stopped ==> after == (Trace {
                state: s,
                out: t.out.push(
                    Action::Event { event: SequencerEvent::NoSequenceActive, name: Seq::empty() },
                ),
            })
            &&& t.cs_cancel(op_code, cmd_seq) == (Trace {
                state: after.state,
                out: after.out.push(
                    Action::CmdResponse { op_code, cmd_seq, response: CmdResponse::OK },
                ),
            })
        }),
{
    law_abandoned_sequence(t);
    let s = t.state;
    let after = t.cancel_sequence();
    let n = ((s.cancel_cmd_count + 1) % 0x1_0000_0000) as u32;
    if s.run_mode == RunMode::Running {
        assert(after.out =~= t.perform_cancel().out + seq![
            Action::Event { event: SequencerEvent::SequenceCanceled, name: s.sequence.name },
            Action::Counter { channel: 1, value: n },
        ]);
    }
}

/// The command to start what is loaded is refused where no record is left, and while a
/// sequence runs. Otherwise the sequence runs, is named as running, its first record is
/// taken, its start is announced to whoever listens, and the command is answered.
pub proof fn law_start(t: Trace, op_code: u32, cmd_seq: u32, now: Time)
    ensures
        ({
            let s = t.state;
            let after = t.cs_start(op_code, cmd_seq, now);
            let name = s.sequence.name;
            let more = s.sequence.position < s.sequence.records.len();
            let begun = Trace {
                state: SequencerState {
                    block_state: BlockState::NoBlock,
                    run_mode: RunMode::Running,
                    last_current_sequence: Some(name),
                    ..s
                },
                out: t.out + only_if(
                    s.last_current_sequence != Some(name),
                    Action::CurrentSequence { name },
                ) + seq![Action::Event { event: SequencerEvent::CmdStarted, name }],
            }.step(now);
            &&& !more ==> after == refused(
                t,
                SequencerEvent::NoSequenceActive,
                op_code,
                cmd_seq,
                CmdResponse::ExecutionError,
            )
            &&& more && s.run_mode == RunMode::Running ==> after == refused(
                t,
                SequencerEvent::InvalidMode,
                op_code,
                cmd_seq,
                CmdResponse::ExecutionError,
            )
            &&& more && s.run_mode == RunMode::Stopped ==> after == (Trace {
                state: begun.state,
                out: begun.out + only_if(
                    s.seq_start,
                    Action::SeqStart {
                        file_name: name,
                        args_size: 0,
                        args: Seq::new(255, |i: int| 0u8),
                    },
                ) + seq![Action::CmdResponse { op_code, cmd_seq, response: CmdResponse::OK }],
            })
        }),
{
    let s = t.state;
    let after = t.cs_start(op_code, cmd_seq, now);
    let name = s.sequence.name;
    if s.sequence.position < s.sequence.records.len() && s.run_mode == RunMode::Stopped {
        let before = Trace {
            state: SequencerState {
                block_state: BlockState::NoBlock,
                run_mode: RunMode::Running,
                last_current_sequence: Some(name),
                ..s
            },
            out: t.out + only_if(
                s.last_current_sequence != Some(name),
                Action::CurrentSequence { name },
            ) + seq![Action::Event { event: SequencerEvent::CmdStarted, name }],
        };
        assert(t.to(
            SequencerState {
                block_state: BlockState::NoBlock,
                run_mode: RunMode::Running,
                ..s
            },
        ).current_sequence(name).log(SequencerEvent::CmdStarted) =~= before);
        model::lemma_step(before, now);
        assert(after.out =~= before.step(now).out + only_if(
            s.seq_start,
            Action::SeqStart { file_name: name, args_size: 0, args: Seq::new(255, |i: int| 0u8) },
        ) + seq![Action::CmdResponse { op_code, cmd_seq, response: CmdResponse::OK }]);
    }
}

/// The command to step is refused unless a sequence runs that is stepped by hand, and where no
/// record is left. Otherwise the next record is taken, which is reported unless that ended
/// the sequence, and the command is answered.
pub proof fn law_step_command(t: Trace, op_code: u32, cmd_seq: u32, now: Time)
    ensures
        ({
            let s = t.state;
            let after = t.cs_step(op_code, cmd_seq, now);
            let by_hand = s.run_mode == RunMode::Running && s.step_mode == StepMode::Manual;
            let more = s.sequence.position < s.sequence.records.len();
            let stepped = t.step(now);
            &&& !by_hand ==> after == refused(
                t,
                SequencerEvent::InvalidMode,
                op_code,
                cmd_seq,
                CmdResponse::ExecutionError,
            )
            &&& by_hand && !more ==> after == refused(
                t,
                SequencerEvent::NoSequenceActive,
                op_code,
                cmd_seq,
                CmdResponse::ExecutionError,
            )
            &&& by_hand && more ==> after == (Trace {
                state: stepped.state,
                out: stepped.out + only_if(
                    stepped.state.run_mode == RunMode::Running,
                    Action::Event {
                        event: SequencerEvent::CmdStepped { command: stepped.state.executed_count },
                        name: s.sequence.name,
                    },
                ) + seq![Action::CmdResponse { op_code, cmd_seq, response: CmdResponse::OK }],
            })
        }),
{
    let s = t.state;
    let stepped = t.step(now);
    model::lemma_step(t, now);
    let after = t.cs_step(op_code, cmd_seq, now);
    if s.run_mode == RunMode::Running && s.step_mode == StepMode::Manual && s.sequence.position
        < s.sequence.records.len() {
        assert(after.out =~= stepped.out + only_if(
            stepped.state.run_mode == RunMode::Running,
            Action::Event {
                event: SequencerEvent::CmdStepped { command: stepped.state.executed_count },
                name: s.sequence.name,
            },
        ) + seq![Action::CmdResponse { op_code, cmd_seq, response: CmdResponse::OK }]);
    }
}

/// The commands that say how records advance are refused while a sequence runs. Otherwise
/// they change that and nothing else, report it and are answered.
pub proof fn law_mode_commands(t: Trace, op_code: u32, cmd_seq: u32, mode: StepMode)
    ensures
        ({
            let after = t.cs_mode(op_code, cmd_seq, mode);
            &&& t.state.run_mode == RunMode::Running ==> after == refused(
                t,
                SequencerEvent::InvalidMode,
                op_code,
                cmd_seq,
                CmdResponse::ExecutionError,
            )
            &&& t.state.run_mode == RunMode::Stopped ==> {
                &&& after.state == (SequencerState { step_mode: mode, ..t.state })
                &&& after.out == t.out.push(
                    Action::Event {
                        event: SequencerEvent::ModeSwitched {
                            mode: if mode == StepMode::Auto {
                                SeqMode::Auto
                            } else {
                                SeqMode::Step
                            },
                        },
                        name: Seq::empty(),
                    },
                ).push(Action::CmdResponse { op_code, cmd_seq, response: CmdResponse::OK })
            }
        }),
{
}

/// The command to wait for the end of the sequence is answered with success where none runs,
/// and refused where another command waits. Otherwise it is not answered: it becomes the
/// one that waits, and the report names the one that it follows.
pub proof fn law_join_command(t: Trace, op_code: u32, cmd_seq: u32)
    ensures
        ({
            let s = t.state;
            let after = t.cs_join_wait(op_code, cmd_seq);
            let waits = s.block_state == BlockState::Block || s.join_waiting;
            &&& s.run_mode == RunMode::Stopped ==> after == refused(
                t,
                SequencerEvent::NoSequenceActive,
                op_code,
                cmd_seq,
                CmdResponse::OK,
            )
            &&& s.run_mode == RunMode::Running && waits ==> after == refused(
                t,
                SequencerEvent::JoinWaitingNotComplete,
                op_code,
                cmd_seq,
                CmdResponse::ExecutionError,
            )
            &&& s.run_mode == RunMode::Running && !waits ==> after == (Trace {
                state: SequencerState { join_waiting: true, op_code, cmd_seq, ..s },
                out: t.out.push(
                    Action::Event {
                        event: SequencerEvent::JoinWaiting {
                            record_number: s.cmd_seq,
                            op_code: s.op_code,
                        },
                        name: s.sequence.name,
                    },
                ),
            })
        }),
{
}

/// A request of another component to run a sequence is refused while one runs and where
/// records are stepped by hand, and fails where the file does not load, or where no file is
/// named and no record is left. Each failure is announced. Otherwise the sequence begins to
/// run, and that is reported.
pub proof fn law_port_run(
    t: Trace,
    name: Seq<u8>,
    outcome: LoadOutcome,
    now: Time,
    later: Time,
)
    ensures
        ({
            let s = t.state;
            let after = t.port_run(name, outcome, now, later);
            let failed = Output::SeqDone {
                op_code: 0,
                cmd_seq: 0,
                response: CmdResponse::ExecutionError,
            };
            let wrong_mode = s.step_mode == StepMode::Manual || s.run_mode == RunMode::Running;
            let asked = if name.len() <= 40 {
                name
            } else {
                name.subrange(0, 40)
            };
            let loaded = t.load(asked, outcome);
            let more = s.sequence.position < s.sequence.records.len();
            let n = ((s.error_count + 1) % 0x1_0000_0000) as u32;
            &&& wrong_mode ==> after == (Trace {
                state: s,
                out: t.out.push(
                    Action::Event { event: SequencerEvent::InvalidMode, name: Seq::empty() },
                ).push(failed),
            })
            &&& !wrong_mode && name.len() > 0 && outcome.result is Err ==> after == (Trace {
                state: loaded.state,
                out: loaded.out.push(failed),
            })
            &&& !wrong_mode && name.len() == 0 && !more ==> after == (Trace {
                state: SequencerState { error_count: n, ..s },
                out: t.out.push(
                    Action::Event { event: SequencerEvent::NoSequenceActive, name: Seq::empty() },
                ).push(Action::Counter { channel: 2, value: n }).push(failed),
            })
            &&& !wrong_mode && name.len() > 0 && outcome.result is Ok ==> {
                let begun = Trace {
                    state: SequencerState { executed_count: 0, ..loaded.state },
                    out: loaded.out,
                }.start_auto(later);
                after == (Trace {
                    state: begun.state,
                    out: begun.out.push(
                        Action::Event {
                            event: SequencerEvent::PortSequenceStarted,
                            name: begun.state.sequence.name,
                        },
                    ),
                })
            }
            &&& !wrong_mode && name.len() == 0 && more ==> {
                let begun = Trace {
                    state: SequencerState { executed_count: 0, ..s },
                    out: t.out,
                }.start_auto(now);
                after == (Trace {
                    state: begun.state,
                    out: begun.out.push(
                        Action::Event {
                            event: SequencerEvent::PortSequenceStarted,
                            name: begun.state.sequence.name,
                        },
                    ),
                })
            }
        }),
{
    if name.len() > 40 {
        assert(model::command_name(name) =~= name.subrange(0, 40));
    }
}

/// An answer that comes while no sequence runs is only reported. One that says that a command
/// failed is reported and counted as an error, and the sequence is given up. One that says
/// that it was carried out is reported and counted; then the sequence has come to its end if
/// no record is left, and otherwise takes the next one, unless it is stepped by hand.
pub proof fn law_answer(t: Trace, op_code: u32, response: CmdResponse, now: Time)
    ensures
        ({
            let s = t.state;
            let after = t.cmd_response(op_code, response, now);
            let running = s.run_mode == RunMode::Running;
            let unwatched = Timer { armed: false, ..s.cmd_timeout_timer };
            let errors = ((s.error_count + 1) % 0x1_0000_0000) as u32;
            let total = ((s.total_executed_count + 1) % 0x1_0000_0000) as u32;
            let completed = Trace {
                state: SequencerState {
                    cmd_timeout_timer: unwatched,
                    executed_count: ((s.executed_count + 1) % 0x1_0000_0000) as u32,
                    total_executed_count: total,
                    ..s
                },
                out: t.out + seq![
                    Action::Event {
                        event: SequencerEvent::CommandComplete {
                            record_number: s.executed_count,
                            op_code,
                        },
                        name: s.sequence.name,
                    },
                    Action::Counter { channel: 3, value: total },
                ],
            };
            let more = s.sequence.position < s.sequence.records.len();
            &&& !running ==> after == (Trace {
                state: s,
                out: t.out.push(
                    Action::Event {
                        event: SequencerEvent::UnexpectedCompletion { op_code },
                        name: Seq::empty(),
                    },
                ),
            })
            &&& running && response != CmdResponse::OK ==> after == (Trace {
                state: SequencerState {
                    cmd_timeout_timer: unwatched,
                    error_count: errors,
                    ..s
                },
                out: t.out + seq![
                    Action::Event {
                        event: SequencerEvent::CommandError {
                            record_number: s.executed_count,
                            op_code,
                            error_status: response.code() as u32,
                        },
                        name: s.sequence.name,
                    },
                    Action::Counter { channel: 2, value: errors },
                ],
            }).perform_cancel()
            &&& running && response == CmdResponse::OK && !more ==> after == (Trace {
                state: SequencerState { run_mode: RunMode::Stopped, ..completed.state },
                out: completed.out,
            }).sequence_complete()
            &&& running && response == CmdResponse::OK && more && s.step_mode == StepMode::Auto
                ==> after == completed.step(now)
            &&& running && response == CmdResponse::OK && more && s.step_mode == StepMode::Manual
                ==> after == completed
        }),
{
    let s = t.state;
    let unwatched = Timer { armed: false, ..s.cmd_timeout_timer };
    let heard = t.to(SequencerState { cmd_timeout_timer: unwatched, ..s });
    let errors = ((s.error_count + 1) % 0x1_0000_0000) as u32;
    let total = ((s.total_executed_count + 1) % 0x1_0000_0000) as u32;
    assert(heard.log(
        SequencerEvent::CommandError {
            record_number: s.executed_count,
            op_code,
            error_status: response.code() as u32,
        },
    ).error() =~= Trace {
        state: SequencerState { cmd_timeout_timer: unwatched, error_count: errors, ..s },
        out: t.out + seq![
            Action::Event {
                event: SequencerEvent::CommandError {
                    record_number: s.executed_count,
                    op_code,
                    error_status: response.code() as u32,
                },
                name: s.sequence.name,
            },
            Action::Counter { channel: 2, value: errors },
        ],
    });
    assert(heard.command_complete(op_code) =~= Trace {
        state: SequencerState {
            cmd_timeout_timer: unwatched,
            executed_count: ((s.executed_count + 1) % 0x1_0000_0000) as u32,
            total_executed_count: total,
            ..s
        },
        out: t.out + seq![
            Action::Event {
                event: SequencerEvent::CommandComplete {
                    record_number: s.executed_count,
                    op_code,
                },
                name: s.sequence.name,
            },
            Action::Counter { channel: 3, value: total },
        ],
    });
}

/// A tick sends the record that waits once its time has come: its command as it is. The record
/// then waits no more, and its command is watched. A time on another clock counts as come.
pub proof fn law_tick_sends_what_is_due(t: Trace, now: Time, later: Time)
    requires
        now.wf(),
        t.state.cmd_timer.armed,
        ({
            let tag = t.state.cmd_timer.expiration;
            now.base != tag.base || now.context != tag.context || now.seconds > tag.seconds
                || now.seconds == tag.seconds && now.useconds >= tag.useconds
        }),
    ensures
        ({
            let s = t.state;
            let after = t.sched(now, later);
            let watched = s.timeout > 0 && s.step_mode == StepMode::Auto;
            &&& after.out == t.out.push(Action::ComCmd { data: s.record.command, context: 0 })
            &&& after.state == (SequencerState {
                cmd_timer: Timer { armed: false, ..s.cmd_timer },
                cmd_timeout_timer: if watched {
                    Timer {
                        armed: true,
                        expiration: Time {
                            seconds: ((now.seconds + s.timeout) % 0x1_0000_0000) as u32,
                            ..now
                        },
                    }
                } else {
                    s.cmd_timeout_timer
                },
                ..s
            })
        }),
{
}

/// A tick that comes before either time does nothing.
pub proof fn law_tick_does_nothing_else(t: Trace, now: Time, later: Time)
    requires
        t.state.cmd_timer.armed ==> {
            let tag = t.state.cmd_timer.expiration;
            now.base == tag.base && now.context == tag.context && (now.seconds < tag.seconds
                || now.seconds == tag.seconds && now.useconds < tag.useconds)
        },
        t.state.cmd_timeout_timer.armed ==> {
            let end = t.state.cmd_timeout_timer.expiration;
            later.base == end.base && later.context == end.context && (later.seconds < end.seconds
                || later.seconds == end.seconds && later.useconds < end.useconds)
        },
    ensures
        t.sched(now, later) == t,
{
}

/// The opcodes are the eight that follow the base, in this order: run, validate, cancel,
/// start, step, advance on its own, advance by hand, wait for the end. All but the first two
/// take no arguments, and are malformed with any. Other opcodes are unknown.
pub proof fn law_commands(
    t: Trace,
    local: u32,
    op_code: u32,
    cmd_seq: u32,
    args: Seq<u8>,
    outcome: LoadOutcome,
    now: Time,
    later: Time,
)
    requires
        op_code == (t.state.id_base + local) % 0x1_0000_0000,
        1 < local,
    ensures
        ({
            let after = t.command(op_code, cmd_seq, args, outcome, now, later);
            let malformed = Trace {
                state: t.state,
                out: t.out.push(
                    Action::CmdResponse { op_code, cmd_seq, response: CmdResponse::FormatError },
                ),
            };
            &&& local > 7 ==> after == (Trace {
                state: t.state,
                out: t.out.push(
                    Action::CmdResponse { op_code, cmd_seq, response: CmdResponse::InvalidOpcode },
                ),
            })
            &&& local <= 7 && args.len() != 0 ==> after == malformed
            &&& local == 2 && args.len() == 0 ==> after == t.cs_cancel(op_code, cmd_seq)
            &&& local == 3 && args.len() == 0 ==> after == t.cs_start(op_code, cmd_seq, now)
            &&& local == 4 && args.len() == 0 ==> after == t.cs_step(op_code, cmd_seq, now)
            &&& local == 5 && args.len() == 0 ==> after == t.cs_mode(
                op_code,
                cmd_seq,
                StepMode::Auto,
            )
            &&& local == 6 && args.len() == 0 ==> after == t.cs_mode(
                op_code,
                cmd_seq,
                StepMode::Manual,
            )
            &&& local == 7 && args.len() == 0 ==> after == t.cs_join_wait(op_code, cmd_seq)
        }),
{
}

/// The commands to run and to validate name a file, as a string of at most forty bytes. After
/// it the first has one byte that says whether it waits for the end of the sequence. With less
/// or more they are malformed, and with another byte the first is invalid.
pub proof fn law_file_commands(
    t: Trace,
    op_code: u32,
    cmd_seq: u32,
    args: Seq<u8>,
    outcome: LoadOutcome,
    now: Time,
    later: Time,
)
    ensures
        ({
            let after = t.command(op_code, cmd_seq, args, outcome, now, later);
            let length = args[0] * 256 + args[1];
            let named = args.len() >= 2 && length <= 40 && 2 + length <= args.len();
            let name = args.subrange(2, 2 + length);
            let answer = |response: CmdResponse|
                Trace {
                    state: t.state,
                    out: t.out.push(Action::CmdResponse { op_code, cmd_seq, response }),
                };
            let runs = op_code == t.state.id_base;
            let validates = op_code == (t.state.id_base + 1) % 0x1_0000_0000;
            let whether = args[2 + length];
            &&& runs && named && args.len() == 3 + length && whether < 2 ==> after == t.cs_run(
                op_code,
                cmd_seq,
                RunArgs {
                    name,
                    block: if whether == 0 {
                        BlockState::Block
                    } else {
                        BlockState::NoBlock
                    },
                },
                outcome,
                later,
            )
            &&& runs && named && args.len() > 3 + length && whether < 2 ==> after == answer(
                CmdResponse::FormatError,
            )
            &&& runs && named && args.len() >= 3 + length && whether >= 2 ==> after == answer(
                CmdResponse::ValidationError,
            )
            &&& runs && (!named || args.len() < 3 + length) ==> after == answer(
                CmdResponse::FormatError,
            )
            &&& validates && named && args.len() == 2 + length ==> after == t.cs_validate(
                op_code,
                cmd_seq,
                name,
                outcome,
            )
            &&& validates && !(named && args.len() == 2 + length) ==> after == answer(
                CmdResponse::FormatError,
            )
        }),
{
    bytes::law_strings_read(args, 0, 40);
    let length = args[0] * 256 + args[1];
    bytes::law_numbers_read(args, 2 + length);
}

/// Each message does what the input that it stands for does. A ping is only answered with its
/// number.
pub proof fn law_messages_are_the_inputs(
    t: Trace,
    m: Message<Seq<u8>>,
    outcome: LoadOutcome,
    now: Time,
    later: Time,
)
    ensures
        m is SeqCancel ==> t.handle(m, outcome, now, later) == t.cancel_sequence(),
        m matches Message::CmdResponse { op_code, cmd_seq, response } ==> t.handle(
            m,
            outcome,
            now,
            later,
        ) == t.cmd_response(op_code, response, now),
        m matches Message::Ping { key } ==> t.handle(m, outcome, now, later) == (Trace {
            state: t.state,
            out: t.out.push(Action::Ping { key }),
        }),
        m matches Message::SeqRun { name, args } ==> t.handle(m, outcome, now, later)
            == t.port_run(name, outcome, now, later),
        m matches Message::SeqDispatch { name } ==> t.handle(m, outcome, now, later) == t.port_run(
            name,
            outcome,
            now,
            later,
        ),
        m is Sched ==> t.handle(m, outcome, now, later) == t.sched(now, later),
        m matches Message::Cmd { op_code, cmd_seq, args } ==> t.handle(m, outcome, now, later)
            == t.command(op_code, cmd_seq, args, outcome, now, later),
{
}

/// At first nothing runs, nobody listens or waits, every count is zero, a command may take any
/// time, and neither timer runs.
pub proof fn law_starts_stopped(id_base: u32, sequence: SequenceState)
    ensures
        ({
            let s = SequencerState::initial(id_base, sequence);
            &&& s.id_base == id_base
            &&& s.sequence == sequence
            &&& s.run_mode == RunMode::Stopped
            &&& s.step_mode == StepMode::Auto
            &&& !s.seq_done && !s.seq_start && !s.join_waiting
            &&& s.block_state == BlockState::NoBlock
            &&& s.timeout == 0
            &&& s.load_cmd_count == 0 && s.cancel_cmd_count == 0 && s.error_count == 0
            &&& s.executed_count == 0 && s.total_executed_count == 0
            &&& s.sequences_completed_count == 0
            &&& !s.cmd_timer.armed && !s.cmd_timeout_timer.armed
            &&& s.last_current_sequence is None
        }),
{
}

/// A command needs a file read only while no sequence runs: the command to run one, unless it
/// would wait for a sequence that is stepped by hand, and the command to validate one; and then
/// the file that it names.
pub proof fn law_which_file_a_command_needs(s: SequencerState, op_code: u32, args: Seq<u8>)
    ensures
        ({
            let length = bytes::sum_of_two(args, 0);
            let named = args.len() >= 2 && length <= 40 && 2 + length <= args.len();
            let name = args.subrange(2, 2 + length);
            let stopped = s.run_mode == RunMode::Stopped;
            let runs = op_code == s.id_base && named && args.len() == 3 + length && (args[2
                + length] == 1 || args[2 + length] == 0 && s.step_mode == StepMode::Auto);
            let validates = op_code == (s.id_base + 1) % 0x1_0000_0000 && named && args.len() == 2
                + length;
            model::command_file(s, op_code, args) == if stopped && (runs || validates) {
                Some(name)
            } else {
                None
            }
        }),
{
    bytes::law_strings_read(args, 0, 40);
    let length = bytes::sum_of_two(args, 0);
    bytes::law_numbers_read(args, 2 + length);
}

/// A request of another component needs the file that it names, up to 40 bytes of the name,
/// unless it is refused or names none.
pub proof fn law_which_file_a_request_needs(s: SequencerState, name: Seq<u8>)
    ensures
        model::port_file(s, name) == if s.step_mode == StepMode::Auto && s.run_mode
            == RunMode::Stopped && name.len() > 0 {
            Some(
                if name.len() <= 40 {
                    name
                } else {
                    name.subrange(0, 40)
                },
            )
        } else {
            None
        },
{
    if name.len() > 40 {
        assert(model::command_name(name) =~= name.subrange(0, 40));
    }
}

/// A request of another component to run a sequence fails where records are stepped by hand,
/// while a sequence runs, where the file that it names does not load, and where it names none and
/// no record is left. It can be handled where someone listens for the failure or there is none,
/// and where the file can be loaded if one is needed: there is a buffer, and no tag is out of
/// range.
pub proof fn law_which_requests_can_be_handled<S: Sequence>(
    s: SequencerState,
    name: Seq<u8>,
    inputs: Inputs<Seq<u8>>,
)
    ensures
        ({
            let outcome = S::load_rule(s.sequence.capacity, inputs.file, inputs.now);
            let refused = s.step_mode == StepMode::Manual || s.run_mode == RunMode::Running;
            let fails = refused || (if name.len() > 0 {
                outcome.result is Err
            } else {
                s.sequence.position >= s.sequence.records.len()
            });
            &&& model::outcome_of::<S>(s, inputs) == outcome
            &&& model::port_run_fails(s, name, outcome) <==> fails
            &&& model::takes_port_run::<S>(s, name, inputs) <==> (s.seq_done || !fails) && (refused
                || name.len() == 0 || s.sequence.capacity > 0 && S::tags_in_range(
                s.sequence.capacity,
                inputs.file,
                inputs.now,
            ))
        }),
{
}

} // verus!
