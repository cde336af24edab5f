//! What the sequencer does, as functions from a state and the outputs so far to the
//! next state and outputs.
use vstd::prelude::*;

use super::dictionary;
use super::dictionary::{Action, SequencerEvent};
use super::format::{FileImage, LoadOutcome, Sequence, SequenceState, CMD_STRING_MAX_SIZE};
use super::timer::Timer;
use super::types::{
    BlockState, RecordDescriptor, RunMode, SeqMode, SequenceLoadEvent, SequenceRecord, StepMode,
    SEQUENCE_ARGUMENTS_MAX_SIZE, SEQUENCE_HEADER_SIZE,
};
use crate::fw::bytes;
use crate::fw::counter;
use crate::fw::time::{Time, TimeComparison};
use crate::fw::types::CmdResponse;

verus! {

/// The state of a sequencer.
#[verifier::ext_equal]
pub struct SequencerState {
    /// The number that the component's identifiers start at.
    pub id_base: u32,
    /// Whether anyone listens for the end of a sequence.
    pub seq_done: bool,
    /// Whether anyone listens for the start of a sequence.
    pub seq_start: bool,
    /// The sequence that is loaded.
    pub sequence: SequenceState,
    /// How many loads have succeeded.
    pub load_cmd_count: u32,
    /// How many sequences have been canceled.
    pub cancel_cmd_count: u32,
    /// How many errors have been reported.
    pub error_count: u32,
    /// Whether a sequence is executing.
    pub run_mode: RunMode,
    /// How the next record advances.
    pub step_mode: StepMode,
    /// How many commands of the running sequence have been carried out.
    pub executed_count: u32,
    /// How many commands have been carried out.
    pub total_executed_count: u32,
    /// How many sequences have come to their end.
    pub sequences_completed_count: u32,
    /// How many seconds a command may take; zero for any number.
    pub timeout: u32,
    /// Whether the command that started the sequence waits for its end.
    pub block_state: BlockState,
    /// The opcode of the command that waits, or of the last that started a sequence.
    pub op_code: u32,
    /// The sequence number of that command.
    pub cmd_seq: u32,
    /// Whether another command waits for the end of the sequence.
    pub join_waiting: bool,
    /// The record in execution.
    pub record: SequenceRecord<Seq<u8>>,
    /// Runs out when the record in execution is due.
    pub cmd_timer: Timer,
    /// Runs out when the command in execution has taken too long.
    pub cmd_timeout_timer: Timer,
    /// The name that was reported last.
    pub last_current_sequence: Option<Seq<u8>>,
}

impl SequencerState {
    /// The conditions that every operation keeps. While no sequence is executing no
    /// command waits for its end, and never do two.
    pub open spec fn valid(self) -> bool {
        &&& self.record.time_tag.wf()
        &&& self.settled()
    }

    /// The conditions on the buffer and on the commands that wait.
    pub open spec fn settled(self) -> bool {
        &&& self.sequence.capacity == 0 || self.sequence.capacity >= SEQUENCE_HEADER_SIZE
        &&& self.run_mode == RunMode::Stopped ==> !self.owes_response()
        &&& !(self.block_state == BlockState::Block && self.join_waiting)
    }

    /// Whether a command waits for the end of the sequence.
    pub open spec fn owes_response(self) -> bool {
        self.block_state == BlockState::Block || self.join_waiting
    }

    /// The state of a sequencer with nothing loaded.
    pub open spec fn initial(id_base: u32, sequence: SequenceState) -> SequencerState {
        SequencerState {
            id_base,
            seq_done: false,
            seq_start: false,
            sequence,
            load_cmd_count: 0,
            cancel_cmd_count: 0,
            error_count: 0,
            run_mode: RunMode::Stopped,
            step_mode: StepMode::Auto,
            executed_count: 0,
            total_executed_count: 0,
            sequences_completed_count: 0,
            timeout: 0,
            block_state: BlockState::NoBlock,
            op_code: 0,
            cmd_seq: 0,
            join_waiting: false,
            record: SequenceRecord::<Seq<u8>>::initial(),
            cmd_timer: Timer::initial(),
            cmd_timeout_timer: Timer::initial(),
            last_current_sequence: None,
        }
    }
}

/// The name that is reported while no sequence is running: `<no seq>`.
pub open spec fn no_seq_name() -> Seq<u8> {
    seq![0x3Cu8, 0x6E, 0x6F, 0x20, 0x73, 0x65, 0x71, 0x3E]
}

/// What a run or validate command asks for.
pub struct RunArgs {
    /// The file name.
    pub name: Seq<u8>,
    /// Whether to answer at the end of the sequence.
    pub block: BlockState,
}

/// The arguments of a run command, or how it is answered where they do not fit.
pub open spec fn run_args(args: Seq<u8>) -> Result<RunArgs, CmdResponse> {
    match bytes::string_read(args, 0, CMD_STRING_MAX_SIZE as int) {
        Err(_) => Err(CmdResponse::FormatError),
        Ok(name) => {
            let pos = 2 + name.len() as int;
            match bytes::u8_read(args, pos) {
                Err(_) => Err(CmdResponse::FormatError),
                Ok(raw) => match BlockState::of_code(raw) {
                    None => Err(CmdResponse::ValidationError),
                    Some(block) => if args.len() != pos + 1 {
                        Err(CmdResponse::FormatError)
                    } else {
                        Ok(RunArgs { name, block })
                    },
                },
            }
        },
    }
}

/// The file name that a validate command carries, unless its arguments do not fit.
pub open spec fn validate_args(args: Seq<u8>) -> Option<Seq<u8>> {
    match bytes::string_read(args, 0, CMD_STRING_MAX_SIZE as int) {
        Err(_) => None,
        Ok(name) => if args.len() != 2 + name.len() {
            None
        } else {
            Some(name)
        },
    }
}

/// As much of a file name as a command could carry.
pub open spec fn command_name(name: Seq<u8>) -> Seq<u8> {
    if name.len() <= CMD_STRING_MAX_SIZE {
        name
    } else {
        name.take(CMD_STRING_MAX_SIZE as int)
    }
}

/// What stands outside the sequencer while it handles a message: the file it asks
/// for, and the clock, read a first and a second time.
#[derive(Debug)]
pub struct Inputs<B = Vec<u8>> {
    /// The file.
    pub file: FileImage<B>,
    /// The first reading of the clock.
    pub now: Time,
    /// The second reading of the clock.
    pub later: Time,
}

impl View for Inputs<Vec<u8>> {
    type V = Inputs<Seq<u8>>;

    open spec fn view(&self) -> Inputs<Seq<u8>> {
        Inputs { file: self.file@, now: self.now, later: self.later }
    }
}

/// A state, and the outputs up to it.
#[verifier::ext_equal]
pub struct Trace {
    /// The state.
    pub state: SequencerState,
    /// The outputs.
    pub out: Seq<Action<Seq<u8>>>,
}

impl Trace {
    /// The trace in another state.
    pub open spec fn to(self, state: SequencerState) -> Trace {
        Trace { state, ..self }
    }

    /// The trace after one more output.
    pub open spec fn emit(self, a: Action<Seq<u8>>) -> Trace {
        Trace { out: self.out.push(a), ..self }
    }

    /// An event is reported.
    pub open spec fn log(self, event: SequencerEvent) -> Trace {
        self.emit(
            Action::Event {
                event,
                name: if event.named() {
                    self.state.sequence.name
                } else {
                    Seq::empty()
                },
            },
        )
    }

    /// A counter is reported.
    pub open spec fn counter(self, channel: u32, value: u32) -> Trace {
        self.emit(Action::Counter { channel, value })
    }

    /// A command is answered.
    pub open spec fn respond(self, op_code: u32, cmd_seq: u32, response: CmdResponse) -> Trace {
        self.emit(Action::CmdResponse { op_code, cmd_seq, response })
    }

    /// The end of a sequence is announced.
    pub open spec fn seq_done(self, response: CmdResponse) -> Trace {
        self.emit(Action::SeqDone { op_code: 0, cmd_seq: 0, response })
    }

    /// The end of a sequence is announced, if anyone listens.
    pub open spec fn seq_done_if_connected(self, response: CmdResponse) -> Trace {
        if self.state.seq_done {
            self.seq_done(response)
        } else {
            self
        }
    }

    /// The start of a sequence is announced without arguments, if anyone listens.
    pub open spec fn seq_start(self) -> Trace {
        if self.state.seq_start {
            self.emit(
                Action::SeqStart {
                    file_name: self.state.sequence.name,
                    args_size: 0,
                    args: Seq::new(SEQUENCE_ARGUMENTS_MAX_SIZE as nat, |i: int| 0u8),
                },
            )
        } else {
            self
        }
    }

    /// The name of the running sequence is reported, if it is another than before.
    pub open spec fn current_sequence(self, name: Seq<u8>) -> Trace {
        if self.state.last_current_sequence == Some(name) {
            self
        } else {
            self.to(
                SequencerState { last_current_sequence: Some(name), ..self.state },
            ).emit(Action::CurrentSequence { name })
        }
    }

    /// An error is counted.
    pub open spec fn error(self) -> Trace {
        let n = counter::bumped(self.state.error_count);
        self.to(SequencerState { error_count: n, ..self.state }).counter(
            dictionary::CHANID_CS_ERRORS,
            n,
        )
    }

    /// A failed load is reported. It counts as an error, unless bytes were left over.
    pub open spec fn sequence_event(self, event: SequenceLoadEvent) -> Trace {
        match event {
            SequenceLoadEvent::FileNotFound => self.log(SequencerEvent::FileNotFound).error(),
            SequenceLoadEvent::FileReadError => self.log(SequencerEvent::FileReadError).error(),
            SequenceLoadEvent::FileInvalid { stage, error } => self.log(
                SequencerEvent::FileInvalid { stage, error },
            ).error(),
            SequenceLoadEvent::FileSizeError { size } => self.log(
                SequencerEvent::FileSizeError { size },
            ).error(),
            SequenceLoadEvent::FileCrcFailure { stored, computed } => self.log(
                SequencerEvent::FileCrcFailure { stored, computed },
            ).error(),
            SequenceLoadEvent::RecordInvalid { record_number, error } => self.log(
                SequencerEvent::RecordInvalid { record_number, error },
            ).error(),
            SequenceLoadEvent::RecordMismatch { header_records, extra_bytes } => self.log(
                SequencerEvent::RecordMismatch { header_records, extra_bytes },
            ),
            SequenceLoadEvent::TimeBaseMismatch { current, seq } => self.log(
                SequencerEvent::TimeBaseMismatch { current, seq },
            ).error(),
            SequenceLoadEvent::TimeContextMismatch { current, seq } => self.log(
                SequencerEvent::TimeContextMismatch { current, seq },
            ).error(),
            SequenceLoadEvent::NoRecords => self.log(SequencerEvent::NoRecords).error(),
        }
    }

    /// A sequence is loaded. A failed load leaves nothing loaded.
    #[verifier::opaque]
    pub open spec fn load(self, name: Seq<u8>, outcome: LoadOutcome) -> Trace {
        let found = SequenceState {
            name,
            header: outcome.header_after(self.state.sequence.header),
            ..self.state.sequence
        };
        match outcome.result {
            Ok(records) => {
                let n = counter::bumped(self.state.load_cmd_count);
                self.to(
                    SequencerState {
                        sequence: SequenceState { records, position: 0, ..found },
                        load_cmd_count: n,
                        ..self.state
                    },
                ).log(SequencerEvent::SequenceLoaded).counter(
                    dictionary::CHANID_CS_LOAD_COMMANDS,
                    n,
                )
            },
            Err(event) => self.to(
                SequencerState { sequence: found.cleared(), ..self.state },
            ).sequence_event(event),
        }
    }

    /// The watchdog is started, where there is one and records advance on their own.
    pub open spec fn set_cmd_timeout(self, now: Time) -> Trace {
        if self.state.timeout > 0 && self.state.step_mode == StepMode::Auto {
            self.to(
                SequencerState {
                    cmd_timeout_timer: Timer::at(now.after(self.state.timeout, 0)),
                    ..self.state
                },
            )
        } else {
            self
        }
    }

    /// The command of the record in execution is sent.
    pub open spec fn send(self) -> Trace {
        self.emit(Action::ComCmd { data: self.state.record.command, context: 0 })
    }

    /// The record in execution is carried out now if it is due, later otherwise.
    pub open spec fn carry_out(self, now: Time) -> Trace {
        let due = now.relation(self.state.record.time_tag);
        if due == TimeComparison::Gt || due == TimeComparison::Eq {
            self.send().set_cmd_timeout(now)
        } else {
            self.to(
                SequencerState {
                    cmd_timer: Timer::at(self.state.record.time_tag),
                    ..self.state
                },
            )
        }
    }

    /// The next record, its tag counted on the clock of the header.
    pub open spec fn fetched(self) -> SequenceRecord<Seq<u8>> {
        let sequence = self.state.sequence;
        let r = sequence.records[sequence.position as int].read_into(self.state.record);
        SequenceRecord {
            time_tag: Time {
                base: sequence.header.time_base,
                context: sequence.header.time_context,
                ..r.time_tag
            },
            ..r
        }
    }

    /// The sequence advances by one record.
    #[verifier::opaque]
    pub open spec fn step(self, now: Time) -> Trace {
        let record = self.fetched();
        let sequence = SequenceState {
            position: self.state.sequence.position + 1,
            ..self.state.sequence
        };
        match record.descriptor {
            RecordDescriptor::EndOfSequence => self.to(
                SequencerState { sequence, record, run_mode: RunMode::Stopped, ..self.state },
            ).sequence_complete(),
            RecordDescriptor::Relative => self.to(
                SequencerState {
                    sequence,
                    record: SequenceRecord {
                        time_tag: record.time_tag.after(now.seconds, now.useconds),
                        ..record
                    },
                    ..self.state
                },
            ).carry_out(now),
            RecordDescriptor::Absolute => self.to(
                SequencerState { sequence, record, ..self.state },
            ).carry_out(now),
        }
    }

    /// The running sequence is abandoned. It stays loaded, back at its first record.
    #[verifier::opaque]
    pub open spec fn perform_cancel(self) -> Trace {
        let stopped = self.to(
            SequencerState {
                sequence: self.state.sequence.rewound(),
                run_mode: RunMode::Stopped,
                cmd_timer: self.state.cmd_timer.disarmed(),
                cmd_timeout_timer: self.state.cmd_timeout_timer.disarmed(),
                executed_count: 0,
                ..self.state
            },
        ).seq_done_if_connected(CmdResponse::ExecutionError);
        let answered = if self.state.owes_response() {
            stopped.respond(self.state.op_code, self.state.cmd_seq, CmdResponse::ExecutionError)
        } else {
            stopped
        };
        answered.to(
            SequencerState {
                join_waiting: false,
                block_state: BlockState::NoBlock,
                ..answered.state
            },
        )
    }

    /// The sequence has come to its end. Nothing stays loaded.
    #[verifier::opaque]
    pub open spec fn sequence_complete(self) -> Trace {
        let n = counter::bumped(self.state.sequences_completed_count);
        let done = self.to(
            SequencerState {
                sequences_completed_count: n,
                sequence: self.state.sequence.cleared(),
                executed_count: 0,
                ..self.state
            },
        ).log(SequencerEvent::SequenceComplete).counter(
            dictionary::CHANID_CS_SEQUENCES_COMPLETED,
            n,
        ).seq_done_if_connected(CmdResponse::OK);
        let answered = if self.state.owes_response() {
            done.respond(self.state.op_code, self.state.cmd_seq, CmdResponse::OK)
        } else {
            done
        };
        answered.to(
            SequencerState {
                join_waiting: false,
                block_state: BlockState::NoBlock,
                ..answered.state
            },
        ).current_sequence(no_seq_name())
    }

    /// A command of the sequence has been carried out.
    pub open spec fn command_complete(self, op_code: u32) -> Trace {
        let logged = self.log(
            SequencerEvent::CommandComplete { record_number: self.state.executed_count, op_code },
        );
        let n = counter::bumped(self.state.total_executed_count);
        logged.to(
            SequencerState {
                executed_count: counter::bumped(self.state.executed_count),
                total_executed_count: n,
                ..self.state
            },
        ).counter(dictionary::CHANID_CS_COMMANDS_EXECUTED, n)
    }

    /// The loaded sequence begins to run on its own.
    #[verifier::opaque]
    pub open spec fn start_auto(self, now: Time) -> Trace {
        self.to(SequencerState { run_mode: RunMode::Running, ..self.state }).current_sequence(
            self.state.sequence.name,
        ).seq_start().step(now)
    }

    /// `CS_RUN`.
    pub open spec fn cs_run(
        self,
        op_code: u32,
        cmd_seq: u32,
        args: RunArgs,
        outcome: LoadOutcome,
        later: Time,
    ) -> Trace {
        if self.state.run_mode != RunMode::Stopped {
            let logged = self.log(SequencerEvent::InvalidMode);
            let logged = if self.state.join_waiting {
                logged.log(SequencerEvent::JoinWaitingNotComplete)
            } else {
                logged
            };
            logged.respond(op_code, cmd_seq, CmdResponse::ExecutionError)
        } else if args.block == BlockState::Block && self.state.step_mode == StepMode::Manual {
            self.log(SequencerEvent::InvalidMode).respond(
                op_code,
                cmd_seq,
                CmdResponse::ExecutionError,
            )
        } else {
            let loaded = self.to(
                SequencerState { block_state: args.block, op_code, cmd_seq, ..self.state },
            ).load(args.name, outcome);
            if outcome.result is Err {
                loaded.to(
                    SequencerState {
                        block_state: BlockState::NoBlock,
                        op_code: 0,
                        cmd_seq: 0,
                        ..loaded.state
                    },
                ).respond(op_code, cmd_seq, CmdResponse::ExecutionError)
            } else {
                let ready = loaded.to(SequencerState { executed_count: 0, ..loaded.state });
                let started = if self.state.step_mode == StepMode::Auto {
                    ready.start_auto(later)
                } else {
                    ready
                };
                if args.block == BlockState::NoBlock {
                    started.respond(op_code, cmd_seq, CmdResponse::OK)
                } else {
                    started
                }
            }
        }
    }

    /// `CS_VALIDATE`. A valid sequence is not left loaded.
    pub open spec fn cs_validate(
        self,
        op_code: u32,
        cmd_seq: u32,
        name: Seq<u8>,
        outcome: LoadOutcome,
    ) -> Trace {
        if self.state.run_mode != RunMode::Stopped {
            self.log(SequencerEvent::InvalidMode).respond(
                op_code,
                cmd_seq,
                CmdResponse::ExecutionError,
            )
        } else {
            let loaded = self.load(name, outcome);
            if outcome.result is Err {
                loaded.respond(op_code, cmd_seq, CmdResponse::ExecutionError)
            } else {
                loaded.to(
                    SequencerState { sequence: loaded.state.sequence.cleared(), ..loaded.state },
                ).log(SequencerEvent::SequenceValid).respond(op_code, cmd_seq, CmdResponse::OK)
            }
        }
    }

    /// The running sequence is canceled, if there is one.
    pub open spec fn cancel_sequence(self) -> Trace {
        if self.state.run_mode == RunMode::Running {
            let canceled = self.perform_cancel().log(SequencerEvent::SequenceCanceled);
            let n = counter::bumped(canceled.state.cancel_cmd_count);
            canceled.to(SequencerState { cancel_cmd_count: n, ..canceled.state }).counter(
                dictionary::CHANID_CS_CANCEL_COMMANDS,
                n,
            )
        } else {
            self.log(SequencerEvent::NoSequenceActive)
        }
    }

    /// `CS_CANCEL`.
    pub open spec fn cs_cancel(self, op_code: u32, cmd_seq: u32) -> Trace {
        self.cancel_sequence().respond(op_code, cmd_seq, CmdResponse::OK)
    }

    /// `CS_START`.
    pub open spec fn cs_start(self, op_code: u32, cmd_seq: u32, now: Time) -> Trace {
        if !self.state.sequence.more() {
            self.log(SequencerEvent::NoSequenceActive).respond(
                op_code,
                cmd_seq,
                CmdResponse::ExecutionError,
            )
        } else if self.state.run_mode != RunMode::Stopped {
            self.log(SequencerEvent::InvalidMode).respond(
                op_code,
                cmd_seq,
                CmdResponse::ExecutionError,
            )
        } else {
            self.to(
                SequencerState {
                    block_state: BlockState::NoBlock,
                    run_mode: RunMode::Running,
                    ..self.state
                },
            ).current_sequence(self.state.sequence.name).log(SequencerEvent::CmdStarted).step(
                now,
            ).seq_start().respond(op_code, cmd_seq, CmdResponse::OK)
        }
    }

    /// `CS_STEP`.
    pub open spec fn cs_step(self, op_code: u32, cmd_seq: u32, now: Time) -> Trace {
        if self.state.run_mode != RunMode::Running || self.state.step_mode != StepMode::Manual {
            self.log(SequencerEvent::InvalidMode).respond(
                op_code,
                cmd_seq,
                CmdResponse::ExecutionError,
            )
        } else if !self.state.sequence.more() {
            self.log(SequencerEvent::NoSequenceActive).respond(
                op_code,
                cmd_seq,
                CmdResponse::ExecutionError,
            )
        } else {
            let stepped = self.step(now);
            let logged = if stepped.state.run_mode != RunMode::Stopped {
                stepped.log(SequencerEvent::CmdStepped { command: stepped.state.executed_count })
            } else {
                stepped
            };
            logged.respond(op_code, cmd_seq, CmdResponse::OK)
        }
    }

    /// `CS_AUTO` and `CS_MANUAL`.
    pub open spec fn cs_mode(
        self,
        op_code: u32,
        cmd_seq: u32,
        step_mode: StepMode,
    ) -> Trace {
        if self.state.run_mode == RunMode::Stopped {
            self.to(SequencerState { step_mode, ..self.state }).log(
                SequencerEvent::ModeSwitched {
                    mode: match step_mode {
                        StepMode::Auto => SeqMode::Auto,
                        StepMode::Manual => SeqMode::Step,
                    },
                },
            ).respond(op_code, cmd_seq, CmdResponse::OK)
        } else {
            self.log(SequencerEvent::InvalidMode).respond(
                op_code,
                cmd_seq,
                CmdResponse::ExecutionError,
            )
        }
    }

    /// `CS_JOIN_WAIT`. The event names the command that is replaced.
    pub open spec fn cs_join_wait(self, op_code: u32, cmd_seq: u32) -> Trace {
        if self.state.run_mode != RunMode::Running {
            self.log(SequencerEvent::NoSequenceActive).respond(op_code, cmd_seq, CmdResponse::OK)
        } else if self.state.owes_response() {
            self.log(SequencerEvent::JoinWaitingNotComplete).respond(
                op_code,
                cmd_seq,
                CmdResponse::ExecutionError,
            )
        } else {
            let logged = self.log(
                SequencerEvent::JoinWaiting {
                    record_number: self.state.cmd_seq,
                    op_code: self.state.op_code,
                },
            );
            logged.to(
                SequencerState { join_waiting: true, op_code, cmd_seq, ..logged.state },
            )
        }
    }

    /// A sequence is run on request of another component; an empty name stands for
    /// the sequence that is loaded.
    pub open spec fn port_run(
        self,
        name: Seq<u8>,
        outcome: LoadOutcome,
        now: Time,
        later: Time,
    ) -> Trace {
        if self.state.step_mode == StepMode::Manual || self.state.run_mode != RunMode::Stopped {
            self.log(SequencerEvent::InvalidMode).seq_done(CmdResponse::ExecutionError)
        } else if name.len() > 0 && outcome.result is Err {
            self.load(command_name(name), outcome).seq_done(CmdResponse::ExecutionError)
        } else if name.len() == 0 && !self.state.sequence.more() {
            self.log(SequencerEvent::NoSequenceActive).error().seq_done(
                CmdResponse::ExecutionError,
            )
        } else {
            let loaded = if name.len() > 0 {
                self.load(command_name(name), outcome)
            } else {
                self
            };
            loaded.to(SequencerState { executed_count: 0, ..loaded.state }).start_auto(
                if name.len() > 0 {
                    later
                } else {
                    now
                },
            ).log(SequencerEvent::PortSequenceStarted)
        }
    }

    /// A command of the sequence is answered.
    pub open spec fn cmd_response(self, op_code: u32, response: CmdResponse, now: Time) -> Trace {
        if self.state.run_mode == RunMode::Stopped {
            self.log(SequencerEvent::UnexpectedCompletion { op_code })
        } else {
            let answered = self.to(
                SequencerState {
                    cmd_timeout_timer: self.state.cmd_timeout_timer.disarmed(),
                    ..self.state
                },
            );
            if response != CmdResponse::OK {
                answered.log(
                    SequencerEvent::CommandError {
                        record_number: self.state.executed_count,
                        op_code,
                        error_status: response.code() as u32,
                    },
                ).error().perform_cancel()
            } else {
                let completed = answered.command_complete(op_code);
                if !self.state.sequence.more() {
                    completed.to(
                        SequencerState { run_mode: RunMode::Stopped, ..completed.state },
                    ).sequence_complete()
                } else if self.state.step_mode == StepMode::Auto {
                    completed.step(now)
                } else {
                    completed
                }
            }
        }
    }

    /// A tick of the scheduler. A record that is due is sent; only if there is none does
    /// the watchdog count.
    pub open spec fn sched(self, now: Time, later: Time) -> Trace {
        if self.state.cmd_timer.expired(now) {
            let sent = self.send();
            sent.to(
                SequencerState { cmd_timer: self.state.cmd_timer.disarmed(), ..sent.state },
            ).set_cmd_timeout(now)
        } else if self.state.cmd_timeout_timer.expired(later) {
            self.log(
                SequencerEvent::SequenceTimeout { command: self.state.executed_count },
            ).perform_cancel()
        } else {
            self
        }
    }
}

/// A load leaves the modes, the commands that wait and the record in execution alone.
pub(crate) proof fn lemma_load(t: Trace, name: Seq<u8>, outcome: LoadOutcome)
    ensures
        t.load(name, outcome).state == (SequencerState {
            sequence: t.load(name, outcome).state.sequence,
            load_cmd_count: t.load(name, outcome).state.load_cmd_count,
            error_count: t.load(name, outcome).state.error_count,
            ..t.state
        }),
        t.load(name, outcome).state.sequence.capacity == t.state.sequence.capacity,
        t.load(name, outcome).state.sequence.name == name,
        outcome.result is Err ==> !t.load(name, outcome).state.sequence.more(),
{
    reveal(Trace::load);
}

/// The end of a sequence leaves nothing loaded and no command waiting.
pub(crate) proof fn lemma_sequence_complete(t: Trace)
    ensures
        t.sequence_complete().state == (SequencerState {
            sequences_completed_count: counter::bumped(t.state.sequences_completed_count),
            sequence: t.state.sequence.cleared(),
            executed_count: 0,
            join_waiting: false,
            block_state: BlockState::NoBlock,
            last_current_sequence: Some(no_seq_name()),
            ..t.state
        }),
{
    reveal(Trace::sequence_complete);
}

/// Canceling leaves the sequence loaded and no command waiting.
pub(crate) proof fn lemma_perform_cancel(t: Trace)
    ensures
        t.perform_cancel().state == (SequencerState {
            sequence: t.state.sequence.rewound(),
            run_mode: RunMode::Stopped,
            cmd_timer: t.state.cmd_timer.disarmed(),
            cmd_timeout_timer: t.state.cmd_timeout_timer.disarmed(),
            executed_count: 0,
            join_waiting: false,
            block_state: BlockState::NoBlock,
            ..t.state
        }),
{
    reveal(Trace::perform_cancel);
}

/// A step either comes to the end of the sequence, and then no command waits any
/// more, or leaves the modes and the commands that wait alone.
pub(crate) proof fn lemma_step(t: Trace, now: Time)
    ensures
        t.step(now).state.id_base == t.state.id_base,
        t.step(now).state.seq_done == t.state.seq_done,
        t.step(now).state.seq_start == t.state.seq_start,
        t.step(now).state.step_mode == t.state.step_mode,
        t.step(now).state.sequence.capacity == t.state.sequence.capacity,
        t.step(now).state.sequence.name == t.state.sequence.name,
        t.fetched().descriptor == RecordDescriptor::EndOfSequence ==> t.step(now).state.run_mode
            == RunMode::Stopped && !t.step(now).state.owes_response(),
        t.fetched().descriptor != RecordDescriptor::EndOfSequence ==> {
            &&& t.step(now).state.run_mode == t.state.run_mode
            &&& t.step(now).state.block_state == t.state.block_state
            &&& t.step(now).state.join_waiting == t.state.join_waiting
            &&& t.step(now).state.op_code == t.state.op_code
            &&& t.step(now).state.cmd_seq == t.state.cmd_seq
        },
{
    reveal(Trace::step);
    let sequence = SequenceState {
        position: t.state.sequence.position + 1,
        ..t.state.sequence
    };
    lemma_sequence_complete(
        t.to(
            SequencerState {
                sequence,
                record: t.fetched(),
                run_mode: RunMode::Stopped,
                ..t.state
            },
        ),
    );
}

/// Starting is a step of a sequencer that is running.
pub(crate) proof fn lemma_start_auto(t: Trace, now: Time)
    ensures
        t.start_auto(now).state.step_mode == t.state.step_mode,
        t.start_auto(now).state.sequence.capacity == t.state.sequence.capacity,
        t.fetched().descriptor == RecordDescriptor::EndOfSequence ==> t.start_auto(
            now,
        ).state.run_mode == RunMode::Stopped && !t.start_auto(now).state.owes_response(),
        t.fetched().descriptor != RecordDescriptor::EndOfSequence ==> {
            &&& t.start_auto(now).state.run_mode == RunMode::Running
            &&& t.start_auto(now).state.block_state == t.state.block_state
            &&& t.start_auto(now).state.join_waiting == t.state.join_waiting
        },
{
    reveal(Trace::start_auto);
    lemma_step(
        t.to(SequencerState { run_mode: RunMode::Running, ..t.state }).current_sequence(
            t.state.sequence.name,
        ).seq_start(),
        now,
    );
}

/// The file that a command needs read, if any.
pub open spec fn command_file(state: SequencerState, op_code: u32, args: Seq<u8>) -> Option<Seq<u8>> {
    let offset = op_offset(state, op_code);
    if state.run_mode != RunMode::Stopped {
        None
    } else if offset == dictionary::OPCODE_CS_RUN {
        match run_args(args) {
            Ok(run) => if run.block == BlockState::Block && state.step_mode == StepMode::Manual {
                None
            } else {
                Some(run.name)
            },
            Err(_) => None,
        }
    } else if offset == dictionary::OPCODE_CS_VALIDATE {
        validate_args(args)
    } else {
        None
    }
}

/// The file that a request of another component needs read, if any.
pub open spec fn port_file(state: SequencerState, name: Seq<u8>) -> Option<Seq<u8>> {
    if state.step_mode == StepMode::Manual || state.run_mode != RunMode::Stopped || name.len()
        == 0 {
        None
    } else {
        Some(command_name(name))
    }
}

/// The opcode without the component's base.
pub open spec fn op_offset(state: SequencerState, op_code: u32) -> u32 {
    if op_code >= state.id_base {
        (op_code - state.id_base) as u32
    } else {
        (op_code + 0x1_0000_0000 - state.id_base) as u32
    }
}

impl Trace {
    /// A command arrives.
    pub open spec fn command(
        self,
        op_code: u32,
        cmd_seq: u32,
        args: Seq<u8>,
        outcome: LoadOutcome,
        now: Time,
        later: Time,
    ) -> Trace {
        let offset = op_offset(self.state, op_code);
        if offset == dictionary::OPCODE_CS_RUN {
            match run_args(args) {
                Ok(run) => self.cs_run(op_code, cmd_seq, run, outcome, later),
                Err(response) => self.respond(op_code, cmd_seq, response),
            }
        } else if offset == dictionary::OPCODE_CS_VALIDATE {
            match validate_args(args) {
                Some(name) => self.cs_validate(op_code, cmd_seq, name, outcome),
                None => self.respond(op_code, cmd_seq, CmdResponse::FormatError),
            }
        } else if offset > dictionary::OPCODE_CS_JOIN_WAIT {
            self.respond(op_code, cmd_seq, CmdResponse::InvalidOpcode)
        } else if args.len() != 0 {
            self.respond(op_code, cmd_seq, CmdResponse::FormatError)
        } else if offset == dictionary::OPCODE_CS_CANCEL {
            self.cs_cancel(op_code, cmd_seq)
        } else if offset == dictionary::OPCODE_CS_START {
            self.cs_start(op_code, cmd_seq, now)
        } else if offset == dictionary::OPCODE_CS_STEP {
            self.cs_step(op_code, cmd_seq, now)
        } else if offset == dictionary::OPCODE_CS_AUTO {
            self.cs_mode(op_code, cmd_seq, StepMode::Auto)
        } else if offset == dictionary::OPCODE_CS_MANUAL {
            self.cs_mode(op_code, cmd_seq, StepMode::Manual)
        } else {
            self.cs_join_wait(op_code, cmd_seq)
        }
    }

}

/// What the format makes of the file, for a sequencer in the given state.
pub open spec fn outcome_of<S: Sequence>(state: SequencerState, inputs: Inputs<Seq<u8>>) -> LoadOutcome {
    S::load_rule(state.sequence.capacity, inputs.file, inputs.now)
}

/// Whether a request of another component to run a sequence fails.
pub open spec fn port_run_fails(
    state: SequencerState,
    name: Seq<u8>,
    outcome: LoadOutcome,
) -> bool {
    ||| state.step_mode == StepMode::Manual
    ||| state.run_mode != RunMode::Stopped
    ||| name.len() > 0 && outcome.result is Err
    ||| name.len() == 0 && !state.sequence.more()
}

/// Whether a load may be tried: there is a buffer, and no tag is out of range.
pub open spec fn can_load<S: Sequence>(state: SequencerState, inputs: Inputs<Seq<u8>>) -> bool {
    &&& state.sequence.capacity > 0
    &&& S::tags_in_range(state.sequence.capacity, inputs.file, inputs.now)
}

/// Whether a request of another component to run a sequence can be handled: the file that
/// it needs can be loaded, and the end of a run that fails finds a listener.
pub open spec fn takes_port_run<S: Sequence>(
    state: SequencerState,
    name: Seq<u8>,
    inputs: Inputs<Seq<u8>>,
) -> bool {
    &&& port_file(state, name) is Some ==> can_load::<S>(state, inputs)
    &&& state.seq_done || !port_run_fails(state, name, outcome_of::<S>(state, inputs))
}

} // verus!
