//! What holds of the time that the commands of a sequence may take.
use vstd::prelude::*;

use super::dictionary::{Action, SequencerEvent};
use super::format::{LoadOutcome, SequenceState};
use super::messages::Message;
use super::model;
use super::model::{RunArgs, SequencerState, Trace};
use super::run_laws;
use super::timer::Timer;
use super::types::{BlockState, RunMode, StepMode};
use crate::fw::time::Time;
use crate::fw::types::CmdResponse;

verus! {

/// Whether a timer runs, and runs out a number of seconds after a time on the clock of that
/// time, whose seconds start over at 32 bits.
pub open spec fn runs_out_after(timer: Timer, start: Time, seconds: u32) -> bool {
    &&& timer.armed
    &&& timer.expiration.base == start.base
    &&& timer.expiration.context == start.context
    &&& timer.expiration.seconds == (start.seconds + seconds) % 0x1_0000_0000
    &&& timer.expiration.useconds == start.useconds
}

/// Whether a time is on the clock of another and not before it.
pub open spec fn reached(expiration: Time, now: Time) -> bool {
    &&& now.base == expiration.base
    &&& now.context == expiration.context
    &&& now.seconds > expiration.seconds || now.seconds == expiration.seconds && now.useconds
        >= expiration.useconds
}

/// How many commands the outputs send.
pub open spec fn commands(out: Seq<Action<Seq<u8>>>) -> nat {
    run_laws::sent(out).len()
}

/// A step that sends its command has it watched.
proof fn lemma_step_watches(t: Trace, now: Time)
    requires
        now.wf(),
    ensures
        ({
            let after = t.step(now);
            &&& after.state.timeout == t.state.timeout
            &&& after.state.step_mode == t.state.step_mode
            &&& commands(after.out) > commands(t.out) ==> {
                &&& after.state.run_mode == t.state.run_mode
                &&& after.state.cmd_timer == t.state.cmd_timer
                &&& t.state.timeout > 0 && t.state.step_mode == StepMode::Auto ==> runs_out_after(
                    after.state.cmd_timeout_timer,
                    now,
                    t.state.timeout,
                )
            }
        }),
{
    broadcast use run_laws::lemma_sent_push;

    reveal(Trace::step);
    let ended = t.to(
        SequencerState {
            sequence: SequenceState {
                position: t.state.sequence.position + 1,
                ..t.state.sequence
            },
            record: t.fetched(),
            run_mode: RunMode::Stopped,
            ..t.state
        },
    );
    run_laws::lemma_complete_sends_nothing(ended);
    model::lemma_sequence_complete(ended);
}

proof fn lemma_start_watches(t: Trace, now: Time)
    requires
        now.wf(),
    ensures
        ({
            let after = t.start_auto(now);
            &&& after.state.timeout == t.state.timeout
            &&& after.state.step_mode == t.state.step_mode
            &&& commands(after.out) > commands(t.out) ==> {
                &&& after.state.run_mode == RunMode::Running
                &&& after.state.cmd_timer == t.state.cmd_timer
                &&& t.state.timeout > 0 && t.state.step_mode == StepMode::Auto ==> runs_out_after(
                    after.state.cmd_timeout_timer,
                    now,
                    t.state.timeout,
                )
            }
        }),
{
    broadcast use run_laws::lemma_sent_push;

    reveal(Trace::start_auto);
    lemma_step_watches(
        t.to(SequencerState { run_mode: RunMode::Running, ..t.state }).current_sequence(
            t.state.sequence.name,
        ).seq_start(),
        now,
    );
}

/// A tick that sends the record that waited has its command watched: a sequence that
/// advances on its own is told within the seconds that a command may take, counted from
/// that tick, and no record waits any more.
pub proof fn law_command_sent_by_a_tick_is_watched(t: Trace, now: Time, later: Time)
    requires
        t.state.valid(),
        now.wf(),
        commands(t.sched(now, later).out) > commands(t.out),
    ensures
        ({
            let after = t.sched(now, later);
            &&& t.state.timeout > 0 && t.state.step_mode == StepMode::Auto ==> runs_out_after(
                after.state.cmd_timeout_timer,
                now,
                t.state.timeout,
            )
            &&& !(t.state.timeout > 0 && t.state.step_mode == StepMode::Auto)
                ==> after.state.cmd_timeout_timer == t.state.cmd_timeout_timer
            &&& !after.state.cmd_timer.armed
            &&& after.state.run_mode == t.state.run_mode
            &&& after.state.timeout == t.state.timeout
        }),
{
    broadcast use run_laws::lemma_sent_push;

    run_laws::lemma_cancel_sends_nothing(
        t.log(SequencerEvent::SequenceTimeout { command: t.state.executed_count }),
    );
}

/// An answer that has the next command sent has that command watched, counted from the
/// answer.
pub proof fn law_command_sent_by_an_answer_is_watched(
    t: Trace,
    op_code: u32,
    response: CmdResponse,
    now: Time,
)
    requires
        t.state.valid(),
        now.wf(),
        commands(t.cmd_response(op_code, response, now).out) > commands(t.out),
    ensures
        ({
            let after = t.cmd_response(op_code, response, now);
            &&& t.state.timeout > 0 ==> runs_out_after(
                after.state.cmd_timeout_timer,
                now,
                t.state.timeout,
            )
            &&& after.state.run_mode == RunMode::Running
            &&& after.state.cmd_timer == t.state.cmd_timer
        }),
{
    broadcast use run_laws::lemma_sent_push;

    let heard = t.to(
        SequencerState { cmd_timeout_timer: t.state.cmd_timeout_timer.disarmed(), ..t.state },
    );
    let failed = heard.log(
        SequencerEvent::CommandError {
            record_number: t.state.executed_count,
            op_code,
            error_status: response.code() as u32,
        },
    ).error();
    run_laws::lemma_cancel_sends_nothing(failed);
    let completed = heard.command_complete(op_code);
    let stopped = completed.to(
        SequencerState { run_mode: RunMode::Stopped, ..completed.state },
    );
    run_laws::lemma_complete_sends_nothing(stopped);
    lemma_step_watches(completed, now);
}

/// However a sequence is started, by a command that runs a file, by a command that starts
/// what is loaded or by another component: where its first command is sent at once, that
/// command is watched, counted from when it was sent.
pub proof fn law_command_sent_by_a_start_is_watched(
    t: Trace,
    op_code: u32,
    cmd_seq: u32,
    args: RunArgs,
    name: Seq<u8>,
    outcome: LoadOutcome,
    now: Time,
    later: Time,
)
    requires
        t.state.valid(),
        now.wf(),
        later.wf(),
        t.state.timeout > 0,
        t.state.step_mode == StepMode::Auto,
    ensures
        ({
            let run = t.cs_run(op_code, cmd_seq, args, outcome, later);
            commands(run.out) > commands(t.out) ==> {
                &&& runs_out_after(run.state.cmd_timeout_timer, later, t.state.timeout)
                &&& run.state.run_mode == RunMode::Running
                &&& run.state.cmd_timer == t.state.cmd_timer
            }
        }),
        ({
            let started = t.cs_start(op_code, cmd_seq, now);
            commands(started.out) > commands(t.out) ==> {
                &&& runs_out_after(started.state.cmd_timeout_timer, now, t.state.timeout)
                &&& started.state.run_mode == RunMode::Running
                &&& started.state.cmd_timer == t.state.cmd_timer
            }
        }),
        ({
            let run = t.port_run(name, outcome, now, later);
            commands(run.out) > commands(t.out) ==> {
                &&& runs_out_after(
                    run.state.cmd_timeout_timer,
                    if name.len() > 0 {
                        later
                    } else {
                        now
                    },
                    t.state.timeout,
                )
                &&& run.state.run_mode == RunMode::Running
                &&& run.state.cmd_timer == t.state.cmd_timer
            }
        }),
{
    broadcast use run_laws::lemma_sent_push;

    let waiting = t.to(SequencerState { block_state: args.block, op_code, cmd_seq, ..t.state });
    run_laws::lemma_load_sends_nothing(waiting, args.name, outcome);
    model::lemma_load(waiting, args.name, outcome);
    let loaded = waiting.load(args.name, outcome);
    lemma_start_watches(
        loaded.to(SequencerState { executed_count: 0, ..loaded.state }),
        later,
    );
    let asked = model::command_name(name);
    run_laws::lemma_load_sends_nothing(t, asked, outcome);
    model::lemma_load(t, asked, outcome);
    let found = t.load(asked, outcome);
    lemma_start_watches(found.to(SequencerState { executed_count: 0, ..found.state }), later);
    lemma_start_watches(t.to(SequencerState { executed_count: 0, ..t.state }), now);
    let begun = t.to(
        SequencerState {
            block_state: BlockState::NoBlock,
            run_mode: RunMode::Running,
            ..t.state
        },
    ).current_sequence(t.state.sequence.name).log(SequencerEvent::CmdStarted);
    lemma_step_watches(begun, now);
}

/// A command that was sent and has not been answered within the seconds that it may take is
/// given up at the first tick from then on: the sequence stops, after a report of how many
/// of its commands were carried out before, and whoever listens for its end or waits for it
/// is told that it failed. Nothing is sent, and neither timer runs any more.
pub proof fn law_unanswered_command_times_out(t: Trace, start: Time, now: Time, later: Time)
    requires
        t.state.valid(),
        t.state.run_mode == RunMode::Running,
        runs_out_after(t.state.cmd_timeout_timer, start, t.state.timeout),
        !t.state.cmd_timer.armed,
        start.seconds + t.state.timeout <= u32::MAX,
        reached(
            Time { seconds: (start.seconds + t.state.timeout) as u32, ..start },
            later,
        ),
    ensures
        ({
            let s = t.state;
            let after = t.sched(now, later);
            let n = t.out.len() as int;
            let waited_for = s.block_state == BlockState::Block || s.join_waiting;
            &&& after.state.run_mode == RunMode::Stopped
            &&& after.out.len() == n + 1 + (if s.seq_done {
                1int
            } else {
                0int
            }) + if waited_for {
                1int
            } else {
                0int
            }
            &&& after.out.take(n) == t.out
            &&& after.out[n] == Action::Event {
                event: SequencerEvent::SequenceTimeout { command: s.executed_count },
                name: s.sequence.name,
            }
            &&& s.seq_done ==> after.out[n + 1] == Action::<Seq<u8>>::SeqDone {
                op_code: 0,
                cmd_seq: 0,
                response: CmdResponse::ExecutionError,
            }
            &&& waited_for ==> after.out.last() == Action::<Seq<u8>>::CmdResponse {
                op_code: s.op_code,
                cmd_seq: s.cmd_seq,
                response: CmdResponse::ExecutionError,
            }
            &&& !after.state.cmd_timer.armed
            &&& !after.state.cmd_timeout_timer.armed
            &&& commands(after.out) == commands(t.out)
        }),
{
    reveal(Trace::perform_cancel);
    let timed_out = t.log(SequencerEvent::SequenceTimeout { command: t.state.executed_count });
    broadcast use run_laws::lemma_sent_push;

    run_laws::lemma_cancel_sends_nothing(timed_out);
    let after = t.sched(now, later);
    assert(after == timed_out.perform_cancel());
    assert(after.out.take(t.out.len() as int) =~= t.out);
}

/// Before that a tick does nothing at all: the command may still be answered.
pub proof fn law_no_timeout_before_its_time(t: Trace, now: Time, later: Time)
    requires
        t.state.valid(),
        !t.state.cmd_timer.armed,
        !t.state.cmd_timeout_timer.armed || later.base == t.state.cmd_timeout_timer.expiration.base
            && later.context == t.state.cmd_timeout_timer.expiration.context && !reached(
            t.state.cmd_timeout_timer.expiration,
            later,
        ),
    ensures
        t.sched(now, later) == t,
{
}

/// An answer stops the watch: until another command is sent no tick gives anything up.
pub proof fn law_answer_stops_the_watch(
    t: Trace,
    op_code: u32,
    response: CmdResponse,
    now: Time,
)
    requires
        t.state.valid(),
        t.state.run_mode == RunMode::Running,
        commands(t.cmd_response(op_code, response, now).out) == commands(t.out),
    ensures
        !t.cmd_response(op_code, response, now).state.cmd_timeout_timer.armed,
{
    broadcast use run_laws::lemma_sent_push;

    let heard = t.to(
        SequencerState { cmd_timeout_timer: t.state.cmd_timeout_timer.disarmed(), ..t.state },
    );
    let failed = heard.log(
        SequencerEvent::CommandError {
            record_number: t.state.executed_count,
            op_code,
            error_status: response.code() as u32,
        },
    ).error();
    model::lemma_perform_cancel(failed);
    let completed = heard.command_complete(op_code);
    let stopped = completed.to(
        SequencerState { run_mode: RunMode::Stopped, ..completed.state },
    );
    model::lemma_sequence_complete(stopped);
    reveal(Trace::step);
    let ended = completed.to(
        SequencerState {
            sequence: SequenceState {
                position: completed.state.sequence.position + 1,
                ..completed.state.sequence
            },
            record: completed.fetched(),
            run_mode: RunMode::Stopped,
            ..completed.state
        },
    );
    model::lemma_sequence_complete(ended);
}

/// Whatever message arrives: where it has a command sent, while records advance on their own and
/// there is a limit on the time that a command may take, that command is watched, counted from the
/// reading of the clock at which it was sent.
pub proof fn law_every_sent_command_is_watched(
    t: Trace,
    m: Message<Seq<u8>>,
    outcome: LoadOutcome,
    now: Time,
    later: Time,
)
    requires
        t.state.valid(),
        now.wf(),
        later.wf(),
        t.state.timeout > 0,
        t.state.step_mode == StepMode::Auto,
        commands(t.handle(m, outcome, now, later).out) > commands(t.out),
    ensures
        ({
            let timer = t.handle(m, outcome, now, later).state.cmd_timeout_timer;
            ||| runs_out_after(timer, now, t.state.timeout)
            ||| runs_out_after(timer, later, t.state.timeout)
        }),
{
    broadcast use run_laws::lemma_sent_push;

    match m {
        Message::SeqCancel => {
            run_laws::lemma_cancel_sends_nothing(t);
        },
        Message::CmdResponse { op_code, response, .. } => {
            law_command_sent_by_an_answer_is_watched(t, op_code, response, now);
        },
        Message::Ping { .. } => {},
        Message::SeqRun { name, .. } => {
            let none = RunArgs { name, block: BlockState::NoBlock };
            law_command_sent_by_a_start_is_watched(t, 0, 0, none, name, outcome, now, later);
        },
        Message::SeqDispatch { name } => {
            let none = RunArgs { name, block: BlockState::NoBlock };
            law_command_sent_by_a_start_is_watched(t, 0, 0, none, name, outcome, now, later);
        },
        Message::Sched { .. } => {
            law_command_sent_by_a_tick_is_watched(t, now, later);
        },
        Message::Cmd { op_code, cmd_seq, args } => {
            run_laws::lemma_cancel_sends_nothing(t);
            if model::run_args(args) is Ok {
                law_command_sent_by_a_start_is_watched(
                    t,
                    op_code,
                    cmd_seq,
                    model::run_args(args)->Ok_0,
                    Seq::empty(),
                    outcome,
                    now,
                    later,
                );
            }
            if model::validate_args(args) is Some {
                run_laws::lemma_load_sends_nothing(t, model::validate_args(args)->0, outcome);
            }
            let none = RunArgs { name: Seq::empty(), block: BlockState::NoBlock };
            law_command_sent_by_a_start_is_watched(
                t,
                op_code,
                cmd_seq,
                none,
                Seq::empty(),
                outcome,
                now,
                later,
            );
        },
    }
}

} // verus!
