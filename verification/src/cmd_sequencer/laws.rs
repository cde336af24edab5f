//! What holds of the sequencer as a whole.
use vstd::prelude::*;

use super::dictionary;
use super::dictionary::{Action, SequencerEvent};
use super::format::{LoadOutcome, SequenceState};
use super::model;
use super::model::{RunArgs, SequencerState, Trace};
use super::types::{BlockState, RecordDescriptor, RunMode, StepMode};
use crate::fw::time::Time;
use crate::fw::types::CmdResponse;

verus! {

/// How many commands are answered in a list of outputs.
pub open spec fn responses(out: Seq<Action<Seq<u8>>>) -> nat
    decreases out.len(),
{
    if out.len() == 0 {
        0
    } else {
        responses(out.drop_last()) + (if out.last() is CmdResponse {
            1nat
        } else {
            0nat
        })
    }
}

/// How many commands have been answered or wait for the end of the sequence.
pub open spec fn accounted(t: Trace) -> nat {
    responses(t.out) + (if t.state.owes_response() {
        1nat
    } else {
        0nat
    })
}

broadcast proof fn lemma_responses_push(out: Seq<Action<Seq<u8>>>, a: Action<Seq<u8>>)
    ensures
        #[trigger] responses(out.push(a)) == responses(out) + (if a is CmdResponse {
            1nat
        } else {
            0nat
        }),
{
    assert(out.push(a).drop_last() =~= out);
}

proof fn lemma_load_accounts(t: Trace, name: Seq<u8>, outcome: LoadOutcome)
    ensures
        responses(t.load(name, outcome).out) == responses(t.out),
        accounted(t.load(name, outcome)) == accounted(t),
{
    broadcast use lemma_responses_push;

    reveal(Trace::load);
}

proof fn lemma_sequence_complete_accounts(t: Trace)
    ensures
        accounted(t.sequence_complete()) == accounted(t),
{
    broadcast use lemma_responses_push;

    reveal(Trace::sequence_complete);
}

proof fn lemma_perform_cancel_accounts(t: Trace)
    ensures
        accounted(t.perform_cancel()) == accounted(t),
{
    broadcast use lemma_responses_push;

    reveal(Trace::perform_cancel);
}

proof fn lemma_step_accounts(t: Trace, now: Time)
    ensures
        accounted(t.step(now)) == accounted(t),
{
    broadcast use lemma_responses_push;

    reveal(Trace::step);
    let sequence = SequenceState {
        position: t.state.sequence.position + 1,
        ..t.state.sequence
    };
    lemma_sequence_complete_accounts(
        t.to(
            SequencerState {
                sequence,
                record: t.fetched(),
                run_mode: RunMode::Stopped,
                ..t.state
            },
        ),
    );
}

proof fn lemma_start_auto_accounts(t: Trace, now: Time)
    ensures
        accounted(t.start_auto(now)) == accounted(t),
{
    broadcast use lemma_responses_push;

    reveal(Trace::start_auto);
    lemma_step_accounts(
        t.to(SequencerState { run_mode: RunMode::Running, ..t.state }).current_sequence(
            t.state.sequence.name,
        ).seq_start(),
        now,
    );
}

/// `CS_RUN` keeps the conditions, and is answered or left waiting.
pub proof fn lemma_cs_run(
    t: Trace,
    op_code: u32,
    cmd_seq: u32,
    args: RunArgs,
    outcome: LoadOutcome,
    later: Time,
)
    requires
        t.state.settled(),
    ensures
        t.cs_run(op_code, cmd_seq, args, outcome, later).state.settled(),
        accounted(t.cs_run(op_code, cmd_seq, args, outcome, later)) == accounted(t) + 1,
{
    broadcast use lemma_responses_push;

    let t1 = t.to(SequencerState { block_state: args.block, op_code, cmd_seq, ..t.state });
    model::lemma_load(t1, args.name, outcome);
    lemma_load_accounts(t1, args.name, outcome);
    let loaded = t1.load(args.name, outcome);
    let ready = loaded.to(SequencerState { executed_count: 0, ..loaded.state });
    model::lemma_start_auto(ready, later);
    lemma_start_auto_accounts(ready, later);
}

/// `CS_VALIDATE` keeps the conditions, and is answered.
pub proof fn lemma_cs_validate(
    t: Trace,
    op_code: u32,
    cmd_seq: u32,
    name: Seq<u8>,
    outcome: LoadOutcome,
)
    requires
        t.state.settled(),
    ensures
        t.cs_validate(op_code, cmd_seq, name, outcome).state.settled(),
        accounted(t.cs_validate(op_code, cmd_seq, name, outcome)) == accounted(t) + 1,
{
    broadcast use lemma_responses_push;

    model::lemma_load(t, name, outcome);
    lemma_load_accounts(t, name, outcome);
}

/// Canceling keeps the conditions, and leaves no command unanswered.
pub proof fn lemma_cancel_sequence(t: Trace)
    requires
        t.state.settled(),
    ensures
        t.cancel_sequence().state.settled(),
        accounted(t.cancel_sequence()) == accounted(t),
{
    broadcast use lemma_responses_push;

    model::lemma_perform_cancel(t);
    lemma_perform_cancel_accounts(t);
}

/// `CS_CANCEL` keeps the conditions, and is answered.
pub proof fn lemma_cs_cancel(t: Trace, op_code: u32, cmd_seq: u32)
    requires
        t.state.settled(),
    ensures
        t.cs_cancel(op_code, cmd_seq).state.settled(),
        accounted(t.cs_cancel(op_code, cmd_seq)) == accounted(t) + 1,
{
    broadcast use lemma_responses_push;

    lemma_cancel_sequence(t);
}

/// `CS_START` keeps the conditions, and is answered.
pub proof fn lemma_cs_start(t: Trace, op_code: u32, cmd_seq: u32, now: Time)
    requires
        t.state.settled(),
    ensures
        t.cs_start(op_code, cmd_seq, now).state.settled(),
        accounted(t.cs_start(op_code, cmd_seq, now)) == accounted(t) + 1,
{
    broadcast use lemma_responses_push;

    let started = t.to(
        SequencerState {
            block_state: BlockState::NoBlock,
            run_mode: RunMode::Running,
            ..t.state
        },
    ).current_sequence(t.state.sequence.name).log(SequencerEvent::CmdStarted);
    model::lemma_step(started, now);
    lemma_step_accounts(started, now);
}

/// `CS_STEP` keeps the conditions, and is answered.
pub proof fn lemma_cs_step(t: Trace, op_code: u32, cmd_seq: u32, now: Time)
    requires
        t.state.settled(),
    ensures
        t.cs_step(op_code, cmd_seq, now).state.settled(),
        accounted(t.cs_step(op_code, cmd_seq, now)) == accounted(t) + 1,
{
    broadcast use lemma_responses_push;

    model::lemma_step(t, now);
    lemma_step_accounts(t, now);
}

/// `CS_AUTO` and `CS_MANUAL` keep the conditions, and are answered.
pub proof fn lemma_cs_mode(t: Trace, op_code: u32, cmd_seq: u32, step_mode: StepMode)
    requires
        t.state.settled(),
    ensures
        t.cs_mode(op_code, cmd_seq, step_mode).state.settled(),
        accounted(t.cs_mode(op_code, cmd_seq, step_mode)) == accounted(t) + 1,
{
    broadcast use lemma_responses_push;

}

/// `CS_JOIN_WAIT` keeps the conditions, and is answered or left waiting.
pub proof fn lemma_cs_join_wait(t: Trace, op_code: u32, cmd_seq: u32)
    requires
        t.state.settled(),
    ensures
        t.cs_join_wait(op_code, cmd_seq).state.settled(),
        accounted(t.cs_join_wait(op_code, cmd_seq)) == accounted(t) + 1,
{
    broadcast use lemma_responses_push;

}

/// Every command that arrives is answered exactly once: at once, or by being left
/// waiting for the end of the sequence, where it takes the only place there is. No
/// command answers for another, save that the end of a sequence answers the one that
/// waits.
pub proof fn law_every_command_is_answered_once(
    t: Trace,
    op_code: u32,
    cmd_seq: u32,
    args: Seq<u8>,
    outcome: LoadOutcome,
    now: Time,
    later: Time,
)
    requires
        t.state.valid(),
    ensures
        t.command(op_code, cmd_seq, args, outcome, now, later).state.settled(),
        accounted(t.command(op_code, cmd_seq, args, outcome, now, later)) == accounted(t) + 1,
{
    broadcast use lemma_responses_push;

    let offset = model::op_offset(t.state, op_code);
    if offset == dictionary::OPCODE_CS_RUN {
        if let Ok(run) = model::run_args(args) {
            lemma_cs_run(t, op_code, cmd_seq, run, outcome, later);
        }
    } else if offset == dictionary::OPCODE_CS_VALIDATE {
        if let Some(name) = model::validate_args(args) {
            lemma_cs_validate(t, op_code, cmd_seq, name, outcome);
        }
    } else if offset == dictionary::OPCODE_CS_CANCEL {
        lemma_cs_cancel(t, op_code, cmd_seq);
    } else if offset == dictionary::OPCODE_CS_START {
        lemma_cs_start(t, op_code, cmd_seq, now);
    } else if offset == dictionary::OPCODE_CS_STEP {
        lemma_cs_step(t, op_code, cmd_seq, now);
    } else if offset == dictionary::OPCODE_CS_AUTO {
        lemma_cs_mode(t, op_code, cmd_seq, StepMode::Auto);
    } else if offset == dictionary::OPCODE_CS_MANUAL {
        lemma_cs_mode(t, op_code, cmd_seq, StepMode::Manual);
    } else if offset == dictionary::OPCODE_CS_JOIN_WAIT {
        lemma_cs_join_wait(t, op_code, cmd_seq);
    }
}

/// A request of another component, a command response or a tick of the scheduler
/// answers a command only by ending the sequence that the command waits for.
pub proof fn law_other_inputs_answer_only_who_waits(
    t: Trace,
    name: Seq<u8>,
    outcome: LoadOutcome,
    op_code: u32,
    response: CmdResponse,
    now: Time,
    later: Time,
)
    requires
        t.state.valid(),
    ensures
        t.port_run(name, outcome, now, later).state.settled(),
        t.cancel_sequence().state.settled(),
        t.cmd_response(op_code, response, now).state.settled(),
        t.sched(now, later).state.settled(),
        accounted(t.port_run(name, outcome, now, later)) == accounted(t),
        accounted(t.cancel_sequence()) == accounted(t),
        accounted(t.cmd_response(op_code, response, now)) == accounted(t),
        accounted(t.sched(now, later)) == accounted(t),
{
    lemma_port_run(t, name, outcome, now, later);
    lemma_cancel_sequence(t);
    lemma_cmd_response(t, op_code, response, now);
    lemma_sched(t, now, later);
}

/// A request of another component keeps the conditions, and answers no command.
pub proof fn lemma_port_run(t: Trace, name: Seq<u8>, outcome: LoadOutcome, now: Time, later: Time)
    requires
        t.state.settled(),
    ensures
        t.port_run(name, outcome, now, later).state.settled(),
        accounted(t.port_run(name, outcome, now, later)) == accounted(t),
{
    broadcast use lemma_responses_push;

    model::lemma_load(t, model::command_name(name), outcome);
    lemma_load_accounts(t, model::command_name(name), outcome);
    let loaded = if name.len() > 0 {
        t.load(model::command_name(name), outcome)
    } else {
        t
    };
    let ready = loaded.to(SequencerState { executed_count: 0, ..loaded.state });
    model::lemma_start_auto(ready, now);
    model::lemma_start_auto(ready, later);
    lemma_start_auto_accounts(ready, now);
    lemma_start_auto_accounts(ready, later);
}

/// A command response keeps the conditions, and answers only a command that waits.
pub proof fn lemma_cmd_response(t: Trace, op_code: u32, response: CmdResponse, now: Time)
    requires
        t.state.settled(),
    ensures
        t.cmd_response(op_code, response, now).state.settled(),
        accounted(t.cmd_response(op_code, response, now)) == accounted(t),
{
    broadcast use lemma_responses_push;

    let answered = t.to(
        SequencerState { cmd_timeout_timer: t.state.cmd_timeout_timer.disarmed(), ..t.state },
    );
    let failed = answered.log(
        SequencerEvent::CommandError {
            record_number: t.state.executed_count,
            op_code,
            error_status: response.code() as u32,
        },
    ).error();
    model::lemma_perform_cancel(failed);
    lemma_perform_cancel_accounts(failed);
    let completed = answered.command_complete(op_code);
    let stopped = completed.to(
        SequencerState { run_mode: RunMode::Stopped, ..completed.state },
    );
    model::lemma_sequence_complete(stopped);
    lemma_sequence_complete_accounts(stopped);
    model::lemma_step(completed, now);
    lemma_step_accounts(completed, now);
}

/// A tick of the scheduler keeps the conditions, and answers only a command that
/// waits.
pub proof fn lemma_sched(t: Trace, now: Time, later: Time)
    requires
        t.state.settled(),
    ensures
        t.sched(now, later).state.settled(),
        accounted(t.sched(now, later)) == accounted(t),
{
    broadcast use lemma_responses_push;

    let logged = t.log(SequencerEvent::SequenceTimeout { command: t.state.executed_count });
    model::lemma_perform_cancel(logged);
    lemma_perform_cancel_accounts(logged);
}

/// Canceling goes back to the first record without unloading anything, so that the
/// same sequence can be started again, from its beginning.
pub proof fn law_cancel_rewinds(t: Trace, op_code: u32, cmd_seq: u32, now: Time)
    requires
        t.state.valid(),
        t.state.run_mode == RunMode::Running,
        t.state.sequence.records.len() > 0,
    ensures
        ({
            let canceled = t.cancel_sequence();
            let again = canceled.cs_start(op_code, cmd_seq, now);
            &&& canceled.state.run_mode == RunMode::Stopped
            &&& canceled.state.sequence == t.state.sequence.rewound()
            &&& canceled.fetched().descriptor == t.state.sequence.records[0].descriptor
            &&& again.out.last() == Action::<Seq<u8>>::CmdResponse {
                op_code,
                cmd_seq,
                response: CmdResponse::OK,
            }
            &&& t.state.sequence.records[0].descriptor != RecordDescriptor::EndOfSequence
                ==> again.state.run_mode == RunMode::Running
        }),
{
    model::lemma_perform_cancel(t);
    let canceled = t.cancel_sequence();
    let started = canceled.to(
        SequencerState {
            block_state: BlockState::NoBlock,
            run_mode: RunMode::Running,
            ..canceled.state
        },
    ).current_sequence(canceled.state.sequence.name).log(SequencerEvent::CmdStarted);
    model::lemma_step(started, now);
}

/// A load that fails, and a validation whatever its outcome, leave nothing that could
/// be started: a start command that follows is refused.
pub proof fn law_nothing_to_start_after_failed_load_or_validation(
    t: Trace,
    run: RunArgs,
    name: Seq<u8>,
    outcome: LoadOutcome,
    op_code: u32,
    cmd_seq: u32,
    now: Time,
    later: Time,
)
    requires
        t.state.valid(),
        t.state.run_mode == RunMode::Stopped,
    ensures
        ({
            let validated = t.cs_validate(op_code, cmd_seq, name, outcome);
            let refused = validated.cs_start(op_code, cmd_seq, now);
            &&& !validated.state.sequence.more()
            &&& refused.state == validated.state
            &&& refused.out == validated.out.push(
                Action::Event { event: SequencerEvent::NoSequenceActive, name: Seq::empty() },
            ).push(
                Action::CmdResponse { op_code, cmd_seq, response: CmdResponse::ExecutionError },
            )
        }),
        outcome.result is Err ==> !t.load(name, outcome).state.sequence.more(),
        outcome.result is Err && !(run.block == BlockState::Block && t.state.step_mode
            == StepMode::Manual) ==> !t.cs_run(
            op_code,
            cmd_seq,
            run,
            outcome,
            later,
        ).state.sequence.more(),
        outcome.result is Err && name.len() > 0 && t.state.step_mode == StepMode::Auto
            ==> !t.port_run(name, outcome, now, later).state.sequence.more(),
{
    model::lemma_load(t, name, outcome);
    model::lemma_load(t, model::command_name(name), outcome);
    model::lemma_load(
        t.to(SequencerState { block_state: run.block, op_code, cmd_seq, ..t.state }),
        run.name,
        outcome,
    );
}

/// A load counts at most one error, and it counts one exactly when it fails for any
/// reason but left-over bytes; it counts as a load exactly when it succeeds.
pub proof fn law_load_counters(t: Trace, name: Seq<u8>, outcome: LoadOutcome)
    ensures
        t.load(name, outcome).state.error_count == (if outcome.result is Err
            && !(outcome.result->Err_0 is RecordMismatch) {
            crate::fw::counter::bumped(t.state.error_count)
        } else {
            t.state.error_count
        }),
        t.load(name, outcome).state.load_cmd_count == (if outcome.result is Ok {
            crate::fw::counter::bumped(t.state.load_cmd_count)
        } else {
            t.state.load_cmd_count
        }),
{
    reveal(Trace::load);
}

/// A command record that is due is sent at once, byte for byte as it stands in the
/// sequence, and nothing else is put out; one that is not due sends nothing and waits
/// for its time.
pub proof fn law_step_sends_the_record(t: Trace, now: Time)
    requires
        t.state.sequence.more(),
        t.state.sequence.records[t.state.sequence.position as int].descriptor
            != RecordDescriptor::EndOfSequence,
    ensures
        ({
            let record = t.state.sequence.records[t.state.sequence.position as int];
            let tag = t.step(now).state.record.time_tag;
            &&& t.step(now).state.sequence.position == t.state.sequence.position + 1
            &&& t.step(now).state.sequence.records == t.state.sequence.records
            &&& tag.base == t.state.sequence.header.time_base
            &&& tag.context == t.state.sequence.header.time_context
            &&& now.same_clock(tag) && !now.earlier(tag) ==> t.step(now).out == t.out.push(
                Action::ComCmd { data: record.command, context: 0 },
            )
            &&& !(now.same_clock(tag) && !now.earlier(tag)) ==> {
                &&& t.step(now).out == t.out
                &&& t.step(now).state.cmd_timer == super::timer::Timer::at(tag)
            }
        }),
{
    reveal(Trace::step);
}

} // verus!
