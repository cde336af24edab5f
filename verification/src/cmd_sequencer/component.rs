//! The sequencer component.
use vstd::prelude::*;

use super::dictionary;
use super::dictionary::{Action, SequencerEvent};
use super::format::{FileImage, Sequence, SequenceState, CMD_STRING_MAX_SIZE};
use super::fprime_sequence::FPrimeSequence;
use super::laws;
use super::model;
use super::model::{Inputs, SequencerState, Trace};
use super::timer::Timer;
use super::types::{
    BlockState, RecordDescriptor, RunMode, SeqMode, SequenceHeader, SequenceLoadEvent,
    SequenceRecord, StepMode, SEQUENCE_ARGUMENTS_MAX_SIZE, SEQUENCE_HEADER_SIZE,
};
use crate::fw::bytes;
use crate::fw::counter;
use crate::fw::outputs;
use crate::fw::time::{Time, TimeComparison};
use crate::fw::types::CmdResponse;

verus! {

/// The command sequencer, for sequence files of format `S`.
pub struct CmdSequencer<S = FPrimeSequence> {
    id_base: u32,
    seq_done: bool,
    seq_start: bool,
    sequence: S,
    load_cmd_count: u32,
    cancel_cmd_count: u32,
    error_count: u32,
    run_mode: RunMode,
    step_mode: StepMode,
    executed_count: u32,
    total_executed_count: u32,
    sequences_completed_count: u32,
    timeout: u32,
    block_state: BlockState,
    op_code: u32,
    cmd_seq: u32,
    join_waiting: bool,
    record: SequenceRecord<Vec<u8>>,
    cmd_timer: Timer,
    cmd_timeout_timer: Timer,
    last_current_sequence: Option<Vec<u8>>,
}

impl<S: Sequence> View for CmdSequencer<S> {
    type V = SequencerState;

    closed spec fn view(&self) -> SequencerState {
        SequencerState {
            id_base: self.id_base,
            seq_done: self.seq_done,
            seq_start: self.seq_start,
            sequence: self.sequence.state(),
            load_cmd_count: self.load_cmd_count,
            cancel_cmd_count: self.cancel_cmd_count,
            error_count: self.error_count,
            run_mode: self.run_mode,
            step_mode: self.step_mode,
            executed_count: self.executed_count,
            total_executed_count: self.total_executed_count,
            sequences_completed_count: self.sequences_completed_count,
            timeout: self.timeout,
            block_state: self.block_state,
            op_code: self.op_code,
            cmd_seq: self.cmd_seq,
            join_waiting: self.join_waiting,
            record: self.record@,
            cmd_timer: self.cmd_timer,
            cmd_timeout_timer: self.cmd_timeout_timer,
            last_current_sequence: match self.last_current_sequence {
                Some(name) => Some(name@),
                None => None,
            },
        }
    }
}

/// The state of a sequencer and the outputs so far.
pub open spec fn trace<S: Sequence>(c: CmdSequencer<S>, out: Seq<Action<Vec<u8>>>) -> Trace {
    Trace { state: c@, out: outputs::views(out) }
}

impl<S: Sequence> CmdSequencer<S> {
    /// What every operation relies on and keeps.
    pub closed spec fn wf(self) -> bool {
        &&& self.sequence.ready()
        &&& self@.valid()
    }

    /// The record in memory can be stepped.
    spec fn steady(self) -> bool {
        &&& self.sequence.ready()
        &&& self@.record.time_tag.wf()
    }

    /// A sequencer that meets its conditions has a buffer that holds at least a header, or
    /// none; while it is stopped, no command waits for the end of a sequence; and at any
    /// time at most one does.
    pub proof fn law_conditions(self)
        requires
            self.wf(),
        ensures
            self@.valid(),
    {
    }

    /// A sequencer for sequences of the given format.
    pub fn with_format(id_base: u32, sequence: S) -> (r: Self)
        requires
            sequence.ready(),
            sequence.state().capacity == 0 || sequence.state().capacity >= SEQUENCE_HEADER_SIZE,
        ensures
            r.wf(),
            r@ == SequencerState::initial(id_base, sequence.state()),
    {
        CmdSequencer {
            id_base,
            seq_done: false,
            seq_start: false,
            sequence,
            load_cmd_count: 0,
            cancel_cmd_count: 0,
            error_count: 0,
            run_mode: RunMode::Stopped,
            step_mode: StepMode::Auto,
            executed_count: 0,
            total_executed_count: 0,
            sequences_completed_count: 0,
            timeout: 0,
            block_state: BlockState::NoBlock,
            op_code: 0,
            cmd_seq: 0,
            join_waiting: false,
            record: SequenceRecord::default(),
            cmd_timer: Timer::new(),
            cmd_timeout_timer: Timer::new(),
            last_current_sequence: None,
        }
    }

    /// Notes that someone listens for the end of a sequence.
    pub fn connect_seq_done(&mut self)
        requires
            old(self).wf(),
        ensures
            final(self).wf(),
            final(self)@ == (SequencerState { seq_done: true, ..old(self)@ }),
    {
        self.seq_done = true;
    }

    /// Notes that someone listens for the start of a sequence.
    pub fn connect_seq_start(&mut self)
        requires
            old(self).wf(),
        ensures
            final(self).wf(),
            final(self)@ == (SequencerState { seq_start: true, ..old(self)@ }),
    {
        self.seq_start = true;
    }

    /// Replaces the format and with it whatever was loaded.
    pub fn set_sequence_format(&mut self, sequence: S)
        requires
            old(self).wf(),
            sequence.ready(),
            sequence.state().capacity == 0 || sequence.state().capacity >= SEQUENCE_HEADER_SIZE,
        ensures
            final(self).wf(),
            final(self)@ == (SequencerState { sequence: sequence.state(), ..old(self)@ }),
    {
        self.sequence = sequence;
    }

    /// Takes a buffer of `bytes` bytes for sequences.
    pub fn allocate_buffer(&mut self, identifier: i32, bytes: usize)
        requires
            old(self).wf(),
            bytes >= SEQUENCE_HEADER_SIZE,
        ensures
            final(self).wf(),
            final(self)@ == (SequencerState {
                sequence: (SequenceState {
                    capacity: bytes as nat,
                    ..old(self)@.sequence.cleared()
                }),
                ..old(self)@
            }),
    {
        self.sequence.allocate_buffer(identifier, bytes);
    }

    /// Gives the sequence buffer up.
    pub fn deallocate_buffer(&mut self)
        requires
            old(self).wf(),
        ensures
            final(self).wf(),
            final(self)@ == (SequencerState {
                sequence: (SequenceState { capacity: 0, ..old(self)@.sequence.cleared() }),
                ..old(self)@
            }),
    {
        self.sequence.deallocate_buffer();
    }

    /// Sets how many seconds a command may take; zero for any number.
    pub fn set_timeout(&mut self, timeout: u32)
        requires
            old(self).wf(),
        ensures
            final(self).wf(),
            final(self)@ == (SequencerState { timeout, ..old(self)@ }),
    {
        self.timeout = timeout;
    }

    /// Whether a sequence is executing.
    pub fn run_mode(&self) -> (r: RunMode)
        ensures
            r == self@.run_mode,
    {
        self.run_mode
    }

    /// How the next record advances.
    pub fn step_mode(&self) -> (r: StepMode)
        ensures
            r == self@.step_mode,
    {
        self.step_mode
    }

    /// The sequence format, with what is loaded.
    pub fn sequence(&self) -> (r: &S)
        ensures
            r.state() == self@.sequence,
    {
        &self.sequence
    }

    /// The record in execution.
    pub fn record(&self) -> (r: &SequenceRecord<Vec<u8>>)
        ensures
            r@ == self@.record,
    {
        &self.record
    }

    /// The timer that runs out when the record in execution is due.
    pub fn cmd_timer(&self) -> (r: Timer)
        ensures
            r == self@.cmd_timer,
    {
        self.cmd_timer
    }

    /// The timer that runs out when the command in execution has taken too long.
    pub fn cmd_timeout_timer(&self) -> (r: Timer)
        ensures
            r == self@.cmd_timeout_timer,
    {
        self.cmd_timeout_timer
    }

    /// Starts the watchdog of the command in execution at a time of one's choosing.
    pub fn set_cmd_timeout_timer(&mut self, time: Time)
        requires
            old(self).wf(),
        ensures
            final(self).wf(),
            final(self)@ == (SequencerState { cmd_timeout_timer: Timer::at(time), ..old(self)@ }),
    {
        self.cmd_timeout_timer.set(time);
    }

    /// Whether a command waits for the end of the sequence after the fact.
    pub fn join_waiting(&self) -> (r: bool)
        ensures
            r == self@.join_waiting,
    {
        self.join_waiting
    }

    /// Registers the commands, in the order of their opcodes.
    pub fn reg_commands(&self, out: &mut Vec<Action>)
        requires
            self@.id_base + dictionary::OPCODE_CS_JOIN_WAIT <= u32::MAX,
        ensures
            outputs::views(final(out)@) == outputs::views(old(out)@) + Seq::new(
                8,
                |i: int| Action::<Seq<u8>>::CmdReg { op_code: (self@.id_base + i) as u32 },
            ),
    {
        let ghost before = outputs::views(out@);
        let ghost regs = Seq::new(
            8,
            |i: int| Action::<Seq<u8>>::CmdReg { op_code: (self@.id_base + i) as u32 },
        );
        let mut i: u32 = 0;
        while i < 8
            invariant
                i <= 8,
                self@.id_base + dictionary::OPCODE_CS_JOIN_WAIT <= u32::MAX,
                regs == Seq::new(
                    8,
                    |i: int| Action::<Seq<u8>>::CmdReg { op_code: (self@.id_base + i) as u32 },
                ),
                outputs::views(out@) == before + regs.take(i as int),
            decreases 8 - i,
        {
            outputs::emit(out, Action::CmdReg { op_code: self.id_base + i });
            assert(before + regs.take(i + 1) =~= (before + regs.take(i as int)).push(
                regs[i as int],
            ));
            i += 1;
        }
        assert(regs.take(8) =~= regs);
    }

    fn log(&self, event: SequencerEvent, out: &mut Vec<Action>)
        ensures
            trace(*self, final(out)@) == trace(*self, old(out)@).log(event),
    {
        let name: Vec<u8> = if event.is_named() {
            bytes::copy_bytes(self.sequence.log_file_name().as_slice())
        } else {
            Vec::new()
        };
        assert(name@ =~= if event.named() {
            self.sequence.state().name
        } else {
            Seq::empty()
        });
        outputs::emit(out, Action::Event { event, name });
    }

    fn tlm_u32(&self, channel: u32, value: u32, out: &mut Vec<Action>)
        ensures
            trace(*self, final(out)@) == trace(*self, old(out)@).counter(channel, value),
    {
        outputs::emit(out, Action::Counter { channel, value });
    }

    fn respond(&self, op_code: u32, cmd_seq: u32, response: CmdResponse, out: &mut Vec<Action>)
        ensures
            trace(*self, final(out)@) == trace(*self, old(out)@).respond(op_code, cmd_seq, response),
    {
        outputs::emit(out, Action::CmdResponse { op_code, cmd_seq, response });
    }

    fn emit_seq_done(&self, response: CmdResponse, out: &mut Vec<Action>)
        ensures
            trace(*self, final(out)@) == trace(*self, old(out)@).seq_done(response),
    {
        outputs::emit(out, Action::SeqDone { op_code: 0, cmd_seq: 0, response });
    }

    fn seq_done_if_connected(&self, response: CmdResponse, out: &mut Vec<Action>)
        ensures
            trace(*self, final(out)@) == trace(*self, old(out)@).seq_done_if_connected(response),
    {
        if self.seq_done {
            self.emit_seq_done(response, out);
        }
    }

    fn emit_seq_start(&self, out: &mut Vec<Action>)
        ensures
            trace(*self, final(out)@) == trace(*self, old(out)@).seq_start(),
    {
        if self.seq_start {
            let file_name: Vec<u8> = bytes::copy_bytes(self.sequence.string_file_name().as_slice());
            let mut args: Vec<u8> = Vec::new();
            let mut i: usize = 0;
            while i < SEQUENCE_ARGUMENTS_MAX_SIZE
                invariant
                    i <= SEQUENCE_ARGUMENTS_MAX_SIZE,
                    args@ == Seq::new(i as nat, |j: int| 0u8),
                decreases SEQUENCE_ARGUMENTS_MAX_SIZE - i,
            {
                args.push(0);
                i += 1;
                assert(args@ =~= Seq::new(i as nat, |j: int| 0u8));
            }
            outputs::emit(out, Action::SeqStart { file_name, args_size: 0, args });
        }
    }

    fn tlm_current_sequence(&mut self, name: &[u8], out: &mut Vec<Action>)
        requires
            old(self).steady(),
        ensures
            final(self).steady(),
            trace(*final(self), final(out)@) == trace(*old(self), old(out)@).current_sequence(name@),
    {
        let same: bool = match &self.last_current_sequence {
            Some(last) => bytes::same_bytes(last.as_slice(), name),
            None => false,
        };
        if !same {
            self.last_current_sequence = Some(bytes::copy_bytes(name));
            outputs::emit(out, Action::CurrentSequence { name: bytes::copy_bytes(name) });
        }
    }

    fn error(&mut self, out: &mut Vec<Action>)
        requires
            old(self).steady(),
        ensures
            final(self).steady(),
            trace(*final(self), final(out)@) == trace(*old(self), old(out)@).error(),
    {
        self.error_count = counter::bump(self.error_count);
        self.tlm_u32(dictionary::CHANID_CS_ERRORS, self.error_count, out);
    }

    fn emit_sequence_event(&mut self, event: SequenceLoadEvent, out: &mut Vec<Action>)
        requires
            old(self).steady(),
        ensures
            final(self).steady(),
            trace(*final(self), final(out)@) == trace(*old(self), old(out)@).sequence_event(event),
    {
        match event {
            SequenceLoadEvent::FileNotFound => self.log(SequencerEvent::FileNotFound, out),
            SequenceLoadEvent::FileReadError => self.log(SequencerEvent::FileReadError, out),
            SequenceLoadEvent::FileInvalid { stage, error } => self.log(
                SequencerEvent::FileInvalid { stage, error },
                out,
            ),
            SequenceLoadEvent::FileSizeError { size } => self.log(
                SequencerEvent::FileSizeError { size },
                out,
            ),
            SequenceLoadEvent::FileCrcFailure { stored, computed } => self.log(
                SequencerEvent::FileCrcFailure { stored, computed },
                out,
            ),
            SequenceLoadEvent::RecordInvalid { record_number, error } => self.log(
                SequencerEvent::RecordInvalid { record_number, error },
                out,
            ),
            SequenceLoadEvent::RecordMismatch { header_records, extra_bytes } => {
                self.log(SequencerEvent::RecordMismatch { header_records, extra_bytes }, out);
                return;
            },
            SequenceLoadEvent::TimeBaseMismatch { current, seq } => self.log(
                SequencerEvent::TimeBaseMismatch { current, seq },
                out,
            ),
            SequenceLoadEvent::TimeContextMismatch { current, seq } => self.log(
                SequencerEvent::TimeContextMismatch { current, seq },
                out,
            ),
            SequenceLoadEvent::NoRecords => self.log(SequencerEvent::NoRecords, out),
        }
        self.error(out);
    }

    fn load_file(
        &mut self,
        file_name: &[u8],
        file: &FileImage<Vec<u8>>,
        now: &Time,
        out: &mut Vec<Action>,
    ) -> (r: bool)
        requires
            old(self).steady(),
            file_name@.len() <= CMD_STRING_MAX_SIZE,
            old(self)@.sequence.capacity >= SEQUENCE_HEADER_SIZE,
            S::tags_in_range(old(self)@.sequence.capacity, file@, *now),
        ensures
            final(self).steady(),
            trace(*final(self), final(out)@) == trace(*old(self), old(out)@).load(
                file_name@,
                S::load_rule(old(self)@.sequence.capacity, file@, *now),
            ),
            r == S::load_rule(old(self)@.sequence.capacity, file@, *now).result is Ok,
            r ==> final(self)@.sequence.more(),
    {
        proof {
            reveal(Trace::load);
        }
        let mut event: Option<SequenceLoadEvent> = None;
        let status: bool = self.sequence.load_file(file_name, file, now, &mut event);
        if status {
            self.log(SequencerEvent::SequenceLoaded, out);
            self.load_cmd_count = counter::bump(self.load_cmd_count);
            self.tlm_u32(dictionary::CHANID_CS_LOAD_COMMANDS, self.load_cmd_count, out);
        } else {
            self.sequence.clear();
            match event {
                Some(e) => self.emit_sequence_event(e, out),
                None => {},
            }
        }
        status
    }

    fn set_cmd_timeout(&mut self, now: &Time, Ghost(out): Ghost<Seq<Action>>)
        requires
            old(self).steady(),
            now.wf(),
        ensures
            final(self).steady(),
            trace(*final(self), out) == trace(*old(self), out).set_cmd_timeout(*now),
    {
        if self.timeout > 0 && self.step_mode == StepMode::Auto {
            let mut expiration: Time = *now;
            expiration.add_duration(self.timeout, 0);
            self.cmd_timeout_timer.set(expiration);
        }
    }

    fn send(&self, out: &mut Vec<Action>)
        ensures
            trace(*self, final(out)@) == trace(*self, old(out)@).send(),
    {
        let data: Vec<u8> = bytes::copy_bytes(self.record.command.as_slice());
        outputs::emit(out, Action::ComCmd { data, context: 0 });
    }

    fn perform_cmd_step_absolute(&mut self, now: &Time, out: &mut Vec<Action>)
        requires
            old(self).steady(),
            now.wf(),
        ensures
            final(self).steady(),
            trace(*final(self), final(out)@) == trace(*old(self), old(out)@).carry_out(*now),
    {
        let due: TimeComparison = Time::compare(now, &self.record.time_tag);
        if due == TimeComparison::Gt || due == TimeComparison::Eq {
            self.send(out);
            self.set_cmd_timeout(now, Ghost(out@));
        } else {
            let tag: Time = self.record.time_tag;
            self.cmd_timer.set(tag);
        }
    }

    fn perform_cmd_step(&mut self, now: &Time, out: &mut Vec<Action>)
        requires
            old(self).steady(),
            old(self)@.sequence.more(),
            now.wf(),
        ensures
            final(self).steady(),
            trace(*final(self), final(out)@) == trace(*old(self), old(out)@).step(*now),
    {
        proof {
            reveal(Trace::step);
        }
        self.sequence.next_record(&mut self.record);
        let header: SequenceHeader = self.sequence.header();
        self.record.time_tag.set_time_base(header.time_base);
        self.record.time_tag.set_time_context(header.time_context);
        match self.record.descriptor {
            RecordDescriptor::EndOfSequence => {
                self.run_mode = RunMode::Stopped;
                self.sequence_complete(out);
            },
            RecordDescriptor::Relative => {
                self.record.time_tag.add_duration(now.seconds, now.useconds);
                self.perform_cmd_step_absolute(now, out);
            },
            RecordDescriptor::Absolute => {
                self.perform_cmd_step_absolute(now, out);
            },
        }
    }

    fn perform_cmd_cancel(&mut self, out: &mut Vec<Action>)
        requires
            old(self).steady(),
        ensures
            final(self).steady(),
            trace(*final(self), final(out)@) == trace(*old(self), old(out)@).perform_cancel(),
    {
        proof {
            reveal(Trace::perform_cancel);
        }
        self.sequence.reset();
        self.run_mode = RunMode::Stopped;
        self.cmd_timer.clear();
        self.cmd_timeout_timer.clear();
        self.executed_count = 0;
        self.seq_done_if_connected(CmdResponse::ExecutionError, out);
        if self.block_state == BlockState::Block || self.join_waiting {
            self.join_waiting = false;
            self.respond(self.op_code, self.cmd_seq, CmdResponse::ExecutionError, out);
        }
        self.block_state = BlockState::NoBlock;
    }

    fn sequence_complete(&mut self, out: &mut Vec<Action>)
        requires
            old(self).steady(),
        ensures
            final(self).steady(),
            trace(*final(self), final(out)@) == trace(*old(self), old(out)@).sequence_complete(),
    {
        proof {
            reveal(Trace::sequence_complete);
        }
        self.sequences_completed_count = counter::bump(self.sequences_completed_count);
        self.sequence.clear();
        self.log(SequencerEvent::SequenceComplete, out);
        self.tlm_u32(
            dictionary::CHANID_CS_SEQUENCES_COMPLETED,
            self.sequences_completed_count,
            out,
        );
        self.executed_count = 0;
        self.seq_done_if_connected(CmdResponse::OK, out);
        if self.block_state == BlockState::Block || self.join_waiting {
            self.respond(self.op_code, self.cmd_seq, CmdResponse::OK, out);
        }
        self.join_waiting = false;
        self.block_state = BlockState::NoBlock;
        let no_seq: [u8; 8] = [0x3C, 0x6E, 0x6F, 0x20, 0x73, 0x65, 0x71, 0x3E];
        assert(no_seq@ =~= model::no_seq_name());
        self.tlm_current_sequence(no_seq.as_slice(), out);
    }

    fn command_complete(&mut self, op_code: u32, out: &mut Vec<Action>)
        requires
            old(self).steady(),
        ensures
            final(self).steady(),
            trace(*final(self), final(out)@) == trace(*old(self), old(out)@).command_complete(
                op_code,
            ),
    {
        self.log(
            SequencerEvent::CommandComplete { record_number: self.executed_count, op_code },
            out,
        );
        self.executed_count = counter::bump(self.executed_count);
        self.total_executed_count = counter::bump(self.total_executed_count);
        self.tlm_u32(dictionary::CHANID_CS_COMMANDS_EXECUTED, self.total_executed_count, out);
    }

    fn start_auto(&mut self, now: &Time, out: &mut Vec<Action>)
        requires
            old(self).steady(),
            old(self)@.sequence.more(),
            now.wf(),
        ensures
            final(self).steady(),
            trace(*final(self), final(out)@) == trace(*old(self), old(out)@).start_auto(*now),
    {
        proof {
            reveal(Trace::start_auto);
        }
        self.run_mode = RunMode::Running;
        let name: Vec<u8> = bytes::copy_bytes(self.sequence.string_file_name().as_slice());
        self.tlm_current_sequence(name.as_slice(), out);
        self.emit_seq_start(out);
        self.perform_cmd_step(now, out);
    }
}

impl<S: Sequence> CmdSequencer<S> {
    /// Loads a sequence while none is running.
    pub fn load_sequence(
        &mut self,
        file_name: &[u8],
        file: &FileImage<Vec<u8>>,
        now: &Time,
        out: &mut Vec<Action>,
    )
        requires
            old(self).wf(),
            old(self)@.run_mode == RunMode::Stopped,
            file_name@.len() <= CMD_STRING_MAX_SIZE,
            old(self)@.sequence.capacity > 0,
            S::tags_in_range(old(self)@.sequence.capacity, file@, *now),
        ensures
            final(self).wf(),
            trace(*final(self), final(out)@) == trace(*old(self), old(out)@).load(
                file_name@,
                S::load_rule(old(self)@.sequence.capacity, file@, *now),
            ),
    {
        proof {
            model::lemma_load(
                trace(*self, out@),
                file_name@,
                S::load_rule(self@.sequence.capacity, file@, *now),
            );
        }
        let _ = self.load_file(file_name, file, now, out);
    }

    /// Whether a load of `file` would get by without meeting a time tag out of range.
    pub fn accepts_tags(&self, file: &FileImage<Vec<u8>>, now: &Time) -> (r: bool)
        ensures
            r == S::tags_in_range(self@.sequence.capacity, file@, *now),
    {
        self.sequence.accepts_tags(file, now)
    }

    fn cs_run_handler(
        &mut self,
        op_code: u32,
        cmd_seq: u32,
        file_name: &[u8],
        block: BlockState,
        inputs: &Inputs<Vec<u8>>,
        out: &mut Vec<Action>,
    )
        requires
            old(self).wf(),
            file_name@.len() <= CMD_STRING_MAX_SIZE,
            inputs.later.wf(),
            old(self)@.run_mode == RunMode::Stopped && !(block == BlockState::Block && old(
                self,
            )@.step_mode == StepMode::Manual) ==> model::can_load::<S>(old(self)@, inputs@),
        ensures
            final(self).wf(),
            trace(*final(self), final(out)@) == trace(*old(self), old(out)@).cs_run(
                op_code,
                cmd_seq,
                (model::RunArgs { name: file_name@, block }),
                model::outcome_of::<S>(old(self)@, inputs@),
                inputs.later,
            ),
    {
        proof {
            laws::lemma_cs_run(
                trace(*self, out@),
                op_code,
                cmd_seq,
                model::RunArgs { name: file_name@, block },
                model::outcome_of::<S>(self@, inputs@),
                inputs.later,
            );
        }
        if self.run_mode != RunMode::Stopped {
            self.log(SequencerEvent::InvalidMode, out);
            if self.join_waiting {
                self.log(SequencerEvent::JoinWaitingNotComplete, out);
            }
            self.respond(op_code, cmd_seq, CmdResponse::ExecutionError, out);
            return;
        }
        if block == BlockState::Block && self.step_mode == StepMode::Manual {
            self.log(SequencerEvent::InvalidMode, out);
            self.respond(op_code, cmd_seq, CmdResponse::ExecutionError, out);
            return;
        }
        self.block_state = block;
        self.cmd_seq = cmd_seq;
        self.op_code = op_code;
        proof {
            model::lemma_load(
                trace(*self, out@),
                file_name@,
                model::outcome_of::<S>(self@, inputs@),
            );
        }
        let loaded: bool = self.load_file(file_name, &inputs.file, &inputs.now, out);
        if !loaded {
            self.block_state = BlockState::NoBlock;
            self.op_code = 0;
            self.cmd_seq = 0;
            self.respond(op_code, cmd_seq, CmdResponse::ExecutionError, out);
            return;
        }
        self.executed_count = 0;
        if self.step_mode == StepMode::Auto {
            self.start_auto(&inputs.later, out);
        }
        if block == BlockState::NoBlock {
            self.respond(op_code, cmd_seq, CmdResponse::OK, out);
        }
    }

    fn cs_validate_handler(
        &mut self,
        op_code: u32,
        cmd_seq: u32,
        file_name: &[u8],
        inputs: &Inputs<Vec<u8>>,
        out: &mut Vec<Action>,
    )
        requires
            old(self).wf(),
            file_name@.len() <= CMD_STRING_MAX_SIZE,
            old(self)@.run_mode == RunMode::Stopped ==> model::can_load::<S>(
                old(self)@,
                inputs@,
            ),
        ensures
            final(self).wf(),
            trace(*final(self), final(out)@) == trace(*old(self), old(out)@).cs_validate(
                op_code,
                cmd_seq,
                file_name@,
                model::outcome_of::<S>(old(self)@, inputs@),
            ),
    {
        proof {
            laws::lemma_cs_validate(
                trace(*self, out@),
                op_code,
                cmd_seq,
                file_name@,
                model::outcome_of::<S>(self@, inputs@),
            );
        }
        if self.run_mode != RunMode::Stopped {
            self.log(SequencerEvent::InvalidMode, out);
            self.respond(op_code, cmd_seq, CmdResponse::ExecutionError, out);
            return;
        }
        let loaded: bool = self.load_file(file_name, &inputs.file, &inputs.now, out);
        if !loaded {
            self.respond(op_code, cmd_seq, CmdResponse::ExecutionError, out);
            return;
        }
        self.sequence.clear();
        self.log(SequencerEvent::SequenceValid, out);
        self.respond(op_code, cmd_seq, CmdResponse::OK, out);
    }

    fn cancel_sequence(&mut self, out: &mut Vec<Action>)
        requires
            old(self).wf(),
        ensures
            final(self).wf(),
            trace(*final(self), final(out)@) == trace(*old(self), old(out)@).cancel_sequence(),
    {
        proof {
            laws::lemma_cancel_sequence(trace(*self, out@));
        }
        if self.run_mode == RunMode::Running {
            self.perform_cmd_cancel(out);
            self.log(SequencerEvent::SequenceCanceled, out);
            self.cancel_cmd_count = counter::bump(self.cancel_cmd_count);
            self.tlm_u32(dictionary::CHANID_CS_CANCEL_COMMANDS, self.cancel_cmd_count, out);
        } else {
            self.log(SequencerEvent::NoSequenceActive, out);
        }
    }

    fn cs_cancel_handler(&mut self, op_code: u32, cmd_seq: u32, out: &mut Vec<Action>)
        requires
            old(self).wf(),
        ensures
            final(self).wf(),
            trace(*final(self), final(out)@) == trace(*old(self), old(out)@).cs_cancel(
                op_code,
                cmd_seq,
            ),
    {
        self.cancel_sequence(out);
        self.respond(op_code, cmd_seq, CmdResponse::OK, out);
    }

    fn cs_start_handler(&mut self, op_code: u32, cmd_seq: u32, now: &Time, out: &mut Vec<Action>)
        requires
            old(self).wf(),
            now.wf(),
        ensures
            final(self).wf(),
            trace(*final(self), final(out)@) == trace(*old(self), old(out)@).cs_start(
                op_code,
                cmd_seq,
                *now,
            ),
    {
        proof {
            laws::lemma_cs_start(trace(*self, out@), op_code, cmd_seq, *now);
        }
        if !self.sequence.has_more_records() {
            self.log(SequencerEvent::NoSequenceActive, out);
            self.respond(op_code, cmd_seq, CmdResponse::ExecutionError, out);
            return;
        }
        if self.run_mode != RunMode::Stopped {
            self.log(SequencerEvent::InvalidMode, out);
            self.respond(op_code, cmd_seq, CmdResponse::ExecutionError, out);
            return;
        }
        self.block_state = BlockState::NoBlock;
        self.run_mode = RunMode::Running;
        let name: Vec<u8> = bytes::copy_bytes(self.sequence.string_file_name().as_slice());
        self.tlm_current_sequence(name.as_slice(), out);
        self.log(SequencerEvent::CmdStarted, out);
        self.perform_cmd_step(now, out);
        self.emit_seq_start(out);
        self.respond(op_code, cmd_seq, CmdResponse::OK, out);
    }

    fn cs_step_handler(&mut self, op_code: u32, cmd_seq: u32, now: &Time, out: &mut Vec<Action>)
        requires
            old(self).wf(),
            now.wf(),
        ensures
            final(self).wf(),
            trace(*final(self), final(out)@) == trace(*old(self), old(out)@).cs_step(
                op_code,
                cmd_seq,
                *now,
            ),
    {
        proof {
            laws::lemma_cs_step(trace(*self, out@), op_code, cmd_seq, *now);
        }
        if self.run_mode != RunMode::Running {
            self.log(SequencerEvent::InvalidMode, out);
            self.respond(op_code, cmd_seq, CmdResponse::ExecutionError, out);
            return;
        }
        if self.step_mode != StepMode::Manual {
            self.log(SequencerEvent::InvalidMode, out);
            self.respond(op_code, cmd_seq, CmdResponse::ExecutionError, out);
            return;
        }
        if !self.sequence.has_more_records() {
            self.log(SequencerEvent::NoSequenceActive, out);
            self.respond(op_code, cmd_seq, CmdResponse::ExecutionError, out);
            return;
        }
        self.perform_cmd_step(now, out);
        if self.run_mode != RunMode::Stopped {
            self.log(SequencerEvent::CmdStepped { command: self.executed_count }, out);
        }
        self.respond(op_code, cmd_seq, CmdResponse::OK, out);
    }

    fn cs_auto_handler(&mut self, op_code: u32, cmd_seq: u32, out: &mut Vec<Action>)
        requires
            old(self).wf(),
        ensures
            final(self).wf(),
            trace(*final(self), final(out)@) == trace(*old(self), old(out)@).cs_mode(
                op_code,
                cmd_seq,
                StepMode::Auto,
            ),
    {
        if self.run_mode == RunMode::Stopped {
            self.step_mode = StepMode::Auto;
            self.log(SequencerEvent::ModeSwitched { mode: SeqMode::Auto }, out);
            self.respond(op_code, cmd_seq, CmdResponse::OK, out);
        } else {
            self.log(SequencerEvent::InvalidMode, out);
            self.respond(op_code, cmd_seq, CmdResponse::ExecutionError, out);
        }
    }

    fn cs_manual_handler(&mut self, op_code: u32, cmd_seq: u32, out: &mut Vec<Action>)
        requires
            old(self).wf(),
        ensures
            final(self).wf(),
            trace(*final(self), final(out)@) == trace(*old(self), old(out)@).cs_mode(
                op_code,
                cmd_seq,
                StepMode::Manual,
            ),
    {
        if self.run_mode == RunMode::Stopped {
            self.step_mode = StepMode::Manual;
            self.log(SequencerEvent::ModeSwitched { mode: SeqMode::Step }, out);
            self.respond(op_code, cmd_seq, CmdResponse::OK, out);
        } else {
            self.log(SequencerEvent::InvalidMode, out);
            self.respond(op_code, cmd_seq, CmdResponse::ExecutionError, out);
        }
    }

    fn cs_join_wait_handler(&mut self, op_code: u32, cmd_seq: u32, out: &mut Vec<Action>)
        requires
            old(self).wf(),
        ensures
            final(self).wf(),
            trace(*final(self), final(out)@) == trace(*old(self), old(out)@).cs_join_wait(
                op_code,
                cmd_seq,
            ),
    {
        if self.run_mode != RunMode::Running {
            self.log(SequencerEvent::NoSequenceActive, out);
            self.respond(op_code, cmd_seq, CmdResponse::OK, out);
        } else if self.block_state == BlockState::Block || self.join_waiting {
            self.log(SequencerEvent::JoinWaitingNotComplete, out);
            self.respond(op_code, cmd_seq, CmdResponse::ExecutionError, out);
        } else {
            self.join_waiting = true;
            self.log(
                SequencerEvent::JoinWaiting { record_number: self.cmd_seq, op_code: self.op_code },
                out,
            );
            self.cmd_seq = cmd_seq;
            self.op_code = op_code;
        }
    }

    /// The file that has to be read for a command, if any.
    pub fn command_file(&self, op_code: u32, args: &[u8]) -> (r: Option<Vec<u8>>)
        ensures
            match r {
                Some(name) => model::command_file(self@, op_code, args@) == Some(name@),
                None => model::command_file(self@, op_code, args@) is None,
            },
    {
        if self.run_mode != RunMode::Stopped {
            return None;
        }
        let offset: u32 = self.op_offset(op_code);
        if offset == dictionary::OPCODE_CS_RUN {
            match Self::parse_run_args(args) {
                Ok((name, block)) => if block == BlockState::Block && self.step_mode
                    == StepMode::Manual {
                    None
                } else {
                    Some(name)
                },
                Err(_) => None,
            }
        } else if offset == dictionary::OPCODE_CS_VALIDATE {
            Self::parse_validate_args(args)
        } else {
            None
        }
    }

    /// The file that has to be read for a request of another component, if any.
    pub fn port_file(&self, name: &[u8]) -> (r: Option<Vec<u8>>)
        ensures
            match r {
                Some(n) => model::port_file(self@, name@) == Some(n@),
                None => model::port_file(self@, name@) is None,
            },
    {
        if self.step_mode == StepMode::Manual || self.run_mode != RunMode::Stopped || name.len()
            == 0 {
            None
        } else {
            Some(Self::shortened(name))
        }
    }

    fn shortened(name: &[u8]) -> (r: Vec<u8>)
        ensures
            r@ == model::command_name(name@),
            r@.len() <= CMD_STRING_MAX_SIZE,
    {
        if name.len() <= CMD_STRING_MAX_SIZE {
            bytes::copy_bytes(name)
        } else {
            let r: Vec<u8> = bytes::copy_range(name, 0, CMD_STRING_MAX_SIZE);
            assert(r@ =~= name@.take(CMD_STRING_MAX_SIZE as int));
            r
        }
    }

    fn op_offset(&self, op_code: u32) -> (r: u32)
        ensures
            r == model::op_offset(self@, op_code),
    {
        if op_code >= self.id_base {
            op_code - self.id_base
        } else {
            (op_code as u64 + 0x1_0000_0000 - self.id_base as u64) as u32
        }
    }

    fn parse_run_args(args: &[u8]) -> (r: Result<(Vec<u8>, BlockState), CmdResponse>)
        ensures
            match r {
                Ok((name, block)) => {
                    &&& model::run_args(args@) == Ok::<model::RunArgs, CmdResponse>(
                        model::RunArgs { name: name@, block },
                    )
                    &&& name@.len() <= CMD_STRING_MAX_SIZE
                },
                Err(e) => model::run_args(args@) == Err::<model::RunArgs, CmdResponse>(e),
            },
    {
        let name: Vec<u8> = match bytes::read_string(args, 0, CMD_STRING_MAX_SIZE) {
            Err(_) => {
                return Err(CmdResponse::FormatError);
            },
            Ok(name) => name,
        };
        let pos: usize = 2 + name.len();
        let raw: u8 = match bytes::read_u8(args, pos) {
            Err(_) => {
                return Err(CmdResponse::FormatError);
            },
            Ok(raw) => raw,
        };
        match BlockState::from_repr(raw) {
            None => Err(CmdResponse::ValidationError),
            Some(block) => if args.len() != pos + 1 {
                Err(CmdResponse::FormatError)
            } else {
                Ok((name, block))
            },
        }
    }

    fn parse_validate_args(args: &[u8]) -> (r: Option<Vec<u8>>)
        ensures
            match r {
                Some(name) => model::validate_args(args@) == Some(name@) && name@.len()
                    <= CMD_STRING_MAX_SIZE,
                None => model::validate_args(args@) is None,
            },
    {
        match bytes::read_string(args, 0, CMD_STRING_MAX_SIZE) {
            Err(_) => None,
            Ok(name) => if args.len() != 2 + name.len() {
                None
            } else {
                Some(name)
            },
        }
    }

    /// A command arrives. Where it needs a file, `inputs` holds what came of reading
    /// it.
    pub fn cmd_in(
        &mut self,
        op_code: u32,
        cmd_seq: u32,
        args: &[u8],
        inputs: &Inputs<Vec<u8>>,
        out: &mut Vec<Action>,
    )
        requires
            old(self).wf(),
            inputs.now.wf(),
            inputs.later.wf(),
            model::command_file(old(self)@, op_code, args@) is Some ==> model::can_load::<S>(
                old(self)@,
                inputs@,
            ),
        ensures
            final(self).wf(),
            trace(*final(self), final(out)@) == trace(*old(self), old(out)@).command(
                op_code,
                cmd_seq,
                args@,
                model::outcome_of::<S>(old(self)@, inputs@),
                inputs.now,
                inputs.later,
            ),
    {
        let offset: u32 = self.op_offset(op_code);
        if offset == dictionary::OPCODE_CS_RUN {
            match Self::parse_run_args(args) {
                Ok((name, block)) => self.cs_run_handler(
                    op_code,
                    cmd_seq,
                    name.as_slice(),
                    block,
                    inputs,
                    out,
                ),
                Err(response) => self.respond(op_code, cmd_seq, response, out),
            }
        } else if offset == dictionary::OPCODE_CS_VALIDATE {
            match Self::parse_validate_args(args) {
                Some(name) => self.cs_validate_handler(
                    op_code,
                    cmd_seq,
                    name.as_slice(),
                    inputs,
                    out,
                ),
                None => self.respond(op_code, cmd_seq, CmdResponse::FormatError, out),
            }
        } else if offset > dictionary::OPCODE_CS_JOIN_WAIT {
            self.respond(op_code, cmd_seq, CmdResponse::InvalidOpcode, out);
        } else if args.len() != 0 {
            self.respond(op_code, cmd_seq, CmdResponse::FormatError, out);
        } else if offset == dictionary::OPCODE_CS_CANCEL {
            self.cs_cancel_handler(op_code, cmd_seq, out);
        } else if offset == dictionary::OPCODE_CS_START {
            self.cs_start_handler(op_code, cmd_seq, &inputs.now, out);
        } else if offset == dictionary::OPCODE_CS_STEP {
            self.cs_step_handler(op_code, cmd_seq, &inputs.now, out);
        } else if offset == dictionary::OPCODE_CS_AUTO {
            self.cs_auto_handler(op_code, cmd_seq, out);
        } else if offset == dictionary::OPCODE_CS_MANUAL {
            self.cs_manual_handler(op_code, cmd_seq, out);
        } else {
            self.cs_join_wait_handler(op_code, cmd_seq, out);
        }
    }

    fn do_sequence_run(&mut self, name: &[u8], inputs: &Inputs<Vec<u8>>, out: &mut Vec<Action>)
        requires
            old(self).wf(),
            inputs.now.wf(),
            inputs.later.wf(),
            model::port_file(old(self)@, name@) is Some ==> model::can_load::<S>(
                old(self)@,
                inputs@,
            ),
        ensures
            final(self).wf(),
            trace(*final(self), final(out)@) == trace(*old(self), old(out)@).port_run(
                name@,
                model::outcome_of::<S>(old(self)@, inputs@),
                inputs.now,
                inputs.later,
            ),
    {
        proof {
            laws::lemma_port_run(
                trace(*self, out@),
                name@,
                model::outcome_of::<S>(self@, inputs@),
                inputs.now,
                inputs.later,
            );
        }
        if self.step_mode == StepMode::Manual {
            self.log(SequencerEvent::InvalidMode, out);
            self.emit_seq_done(CmdResponse::ExecutionError, out);
            return;
        }
        if self.run_mode != RunMode::Stopped {
            self.log(SequencerEvent::InvalidMode, out);
            self.emit_seq_done(CmdResponse::ExecutionError, out);
            return;
        }
        if name.len() > 0 {
            let short: Vec<u8> = Self::shortened(name);
            let loaded: bool = self.load_file(short.as_slice(), &inputs.file, &inputs.now, out);
            if !loaded {
                self.emit_seq_done(CmdResponse::ExecutionError, out);
                return;
            }
        } else if !self.sequence.has_more_records() {
            self.log(SequencerEvent::NoSequenceActive, out);
            self.error(out);
            self.emit_seq_done(CmdResponse::ExecutionError, out);
            return;
        }
        self.executed_count = 0;
        let step_time: Time = if name.len() > 0 {
            inputs.later
        } else {
            inputs.now
        };
        self.start_auto(&step_time, out);
        self.log(SequencerEvent::PortSequenceStarted, out);
    }

    /// Another component asks for a sequence to be run, with arguments that are not
    /// looked at. The end of a run that fails is announced, so someone has to listen.
    pub fn seq_run_in(&mut self, name: &[u8], inputs: &Inputs<Vec<u8>>, out: &mut Vec<Action>)
        requires
            old(self).wf(),
            inputs.now.wf(),
            inputs.later.wf(),
            model::takes_port_run::<S>(old(self)@, name@, inputs@),
        ensures
            final(self).wf(),
            trace(*final(self), final(out)@) == trace(*old(self), old(out)@).port_run(
                name@,
                model::outcome_of::<S>(old(self)@, inputs@),
                inputs.now,
                inputs.later,
            ),
    {
        self.do_sequence_run(name, inputs, out);
    }

    /// Another component hands on a file name of a sequence to be run.
    pub fn seq_dispatch_in(&mut self, name: &[u8], inputs: &Inputs<Vec<u8>>, out: &mut Vec<Action>)
        requires
            old(self).wf(),
            inputs.now.wf(),
            inputs.later.wf(),
            model::takes_port_run::<S>(old(self)@, name@, inputs@),
        ensures
            final(self).wf(),
            trace(*final(self), final(out)@) == trace(*old(self), old(out)@).port_run(
                name@,
                model::outcome_of::<S>(old(self)@, inputs@),
                inputs.now,
                inputs.later,
            ),
    {
        self.do_sequence_run(name, inputs, out);
    }

    /// Another component asks for the running sequence to be canceled.
    pub fn seq_cancel_in(&mut self, out: &mut Vec<Action>)
        requires
            old(self).wf(),
        ensures
            final(self).wf(),
            trace(*final(self), final(out)@) == trace(*old(self), old(out)@).cancel_sequence(),
    {
        self.cancel_sequence(out);
    }

    /// A ping arrives; it is answered with its key.
    pub fn ping_in(&self, key: u32, out: &mut Vec<Action>)
        ensures
            trace(*self, final(out)@) == trace(*self, old(out)@).emit(Action::Ping { key }),
    {
        outputs::emit(out, Action::Ping { key });
    }

    /// A command of the sequence has been answered.
    pub fn cmd_response_in(
        &mut self,
        op_code: u32,
        _cmd_seq: u32,
        response: CmdResponse,
        now: &Time,
        out: &mut Vec<Action>,
    )
        requires
            old(self).wf(),
            now.wf(),
        ensures
            final(self).wf(),
            trace(*final(self), final(out)@) == trace(*old(self), old(out)@).cmd_response(
                op_code,
                response,
                *now,
            ),
    {
        proof {
            laws::lemma_cmd_response(trace(*self, out@), op_code, response, *now);
        }
        if self.run_mode == RunMode::Stopped {
            self.log(SequencerEvent::UnexpectedCompletion { op_code }, out);
            return;
        }
        self.cmd_timeout_timer.clear();
        if response != CmdResponse::OK {
            let error_status: u32 = response.as_repr() as u32;
            self.log(
                SequencerEvent::CommandError {
                    record_number: self.executed_count,
                    op_code,
                    error_status,
                },
                out,
            );
            self.error(out);
            self.perform_cmd_cancel(out);
        } else if self.step_mode == StepMode::Auto {
            self.command_complete(op_code, out);
            if self.sequence.has_more_records() {
                self.perform_cmd_step(now, out);
            } else {
                self.run_mode = RunMode::Stopped;
                self.sequence_complete(out);
            }
        } else {
            self.command_complete(op_code, out);
            if !self.sequence.has_more_records() {
                self.run_mode = RunMode::Stopped;
                self.sequence_complete(out);
            }
        }
    }

    /// A tick of the scheduler. The clock is read once for the record that is due, and
    /// again for the watchdog.
    pub fn sched_in(&mut self, now: &Time, later: &Time, out: &mut Vec<Action>)
        requires
            old(self).wf(),
            now.wf(),
        ensures
            final(self).wf(),
            trace(*final(self), final(out)@) == trace(*old(self), old(out)@).sched(*now, *later),
    {
        proof {
            laws::lemma_sched(trace(*self, out@), *now, *later);
        }
        if self.cmd_timer.is_expired_at(now) {
            self.send(out);
            self.cmd_timer.clear();
            self.set_cmd_timeout(now, Ghost(out@));
        } else if self.cmd_timeout_timer.is_expired_at(later) {
            self.log(SequencerEvent::SequenceTimeout { command: self.executed_count }, out);
            self.perform_cmd_cancel(out);
        }
    }
}

impl CmdSequencer<FPrimeSequence> {
    /// A sequencer for binary sequence files, without a buffer yet.
    pub fn new(id_base: u32) -> (r: Self)
        ensures
            r.wf(),
            r@ == SequencerState::initial(
                id_base,
                SequenceState {
                    capacity: 0,
                    name: Seq::empty(),
                    header: SequenceHeader::initial(),
                    records: Seq::empty(),
                    position: 0,
                },
            ),
    {
        Self::with_format(id_base, FPrimeSequence::new())
    }

    /// Whether the file can be loaded.
    fn would_load(&self, inputs: &Inputs<Vec<u8>>) -> (r: bool)
        requires
            self@.sequence.capacity >= SEQUENCE_HEADER_SIZE,
            FPrimeSequence::tags_in_range(self@.sequence.capacity, inputs.file@, inputs.now),
        ensures
            r == model::outcome_of::<FPrimeSequence>(self@, inputs@).result is Ok,
    {
        let mut trial = FPrimeSequence::new();
        trial.allocate_buffer(0, self.sequence.capacity());
        let name: Vec<u8> = Vec::new();
        let mut event: Option<SequenceLoadEvent> = None;
        trial.load_file(name.as_slice(), &inputs.file, &inputs.now, &mut event)
    }

    /// Whether a request of another component to run a sequence can be handled.
    pub fn takes_port_run(&self, name: &[u8], inputs: &Inputs<Vec<u8>>) -> (r: bool)
        requires
            self.wf(),
        ensures
            r == model::takes_port_run::<FPrimeSequence>(self@, name@, inputs@),
    {
        if self.step_mode == StepMode::Manual || self.run_mode != RunMode::Stopped {
            return self.seq_done;
        }
        if name.len() == 0 {
            return self.seq_done || self.sequence.has_more_records();
        }
        self.sequence.capacity() > 0 && self.accepts_tags(&inputs.file, &inputs.now) && (
        self.seq_done || self.would_load(inputs))
    }
}

} // verus!
