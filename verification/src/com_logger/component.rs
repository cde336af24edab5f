//! The packet logger.
use vstd::prelude::*;

use super::dictionary;
use super::dictionary::{Action, LoggerEvent, FILE_NAME_STRING_SIZE, HASH_EXTENSION_SIZE};
use super::model::{AfterClose, LoggerState, Task, Trace};
use super::validation::ValidateStatus;
use crate::fw::bytes;
use crate::fw::counter;
use crate::fw::outputs;
use crate::fw::throttle::EventThrottle;
use crate::fw::time::Time;
use crate::fw::types::{CmdResponse, FileStatus};

verus! {

/// Writes packets to files. A file that is full is closed, gets a checksum file, and is
/// followed by the next one.
#[derive(Debug)]
pub struct ComLogger {
    id_base: u32,
    ping_connected: bool,
    file_prefix: Vec<u8>,
    max_file_size: u32,
    store_buffer_length: bool,
    initialized: bool,
    open: bool,
    file_name: Vec<u8>,
    hash_file_name: Vec<u8>,
    byte_count: u32,
    write_error_occurred: bool,
    open_error_occurred: bool,
    file_not_initialized_throttle: EventThrottle,
    task: Task,
}

impl View for AfterClose<Vec<u8>> {
    type V = AfterClose<Seq<u8>>;

    open spec fn view(&self) -> AfterClose<Seq<u8>> {
        match self {
            AfterClose::Log { record } => AfterClose::Log { record: record@ },
            AfterClose::Answer { op_code, cmd_seq } => AfterClose::Answer {
                op_code: *op_code,
                cmd_seq: *cmd_seq,
            },
        }
    }
}

impl View for Task<Vec<u8>> {
    type V = Task<Seq<u8>>;

    open spec fn view(&self) -> Task<Seq<u8>> {
        match self {
            Task::Idle => Task::Idle,
            Task::Closing { after } => Task::Closing { after: after@ },
            Task::Opening { record } => Task::Opening { record: record@ },
            Task::WritingLength { record } => Task::WritingLength { record: record@ },
            Task::WritingRecord { record } => Task::WritingRecord { record: record@ },
        }
    }
}

impl View for ComLogger {
    type V = LoggerState;

    closed spec fn view(&self) -> LoggerState {
        LoggerState {
            id_base: self.id_base,
            ping_connected: self.ping_connected,
            file_prefix: self.file_prefix@,
            max_file_size: self.max_file_size,
            store_buffer_length: self.store_buffer_length,
            initialized: self.initialized,
            open: self.open,
            file_name: self.file_name@,
            hash_file_name: self.hash_file_name@,
            byte_count: self.byte_count,
            write_error: self.write_error_occurred,
            open_error: self.open_error_occurred,
            throttle: self.file_not_initialized_throttle,
            task: self.task@,
        }
    }
}

/// The state of the logger with a list of outputs.
pub open spec fn trace(c: ComLogger, out: Seq<Action>) -> Trace {
    Trace { state: c@, out: outputs::views(out) }
}

impl ComLogger {
    /// The conditions that every operation keeps.
    pub open spec fn wf(self) -> bool {
        self@.valid()
    }

    /// A logger that has not been set up.
    pub fn new(id_base: u32) -> (r: Self)
        ensures
            r.wf(),
            r@ == LoggerState::initial(id_base),
    {
        let r = ComLogger {
            id_base,
            ping_connected: false,
            file_prefix: Vec::new(),
            max_file_size: 0,
            store_buffer_length: false,
            initialized: false,
            open: false,
            file_name: Vec::new(),
            hash_file_name: Vec::new(),
            byte_count: 0,
            write_error_occurred: false,
            open_error_occurred: false,
            file_not_initialized_throttle: EventThrottle::new(
                dictionary::FILE_NOT_INITIALIZED_THROTTLE,
            ),
            task: Task::Idle,
        };
        assert(r@ =~= LoggerState::initial(id_base));
        r
    }

    /// A logger that has been set up.
    pub fn with_log_file(
        id_base: u32,
        file_prefix: &[u8],
        max_file_size: u32,
        store_buffer_length: bool,
    ) -> (r: Self)
        requires
            store_buffer_length ==> max_file_size > 2,
            file_prefix@.len() <= FILE_NAME_STRING_SIZE,
        ensures
            r.wf(),
            r@ == (LoggerState {
                file_prefix: file_prefix@,
                max_file_size,
                store_buffer_length,
                initialized: true,
                ..LoggerState::initial(id_base)
            }),
    {
        let mut r = Self::new(id_base);
        r.init_log_file(file_prefix, max_file_size, store_buffer_length);
        r
    }

    /// Sets the logger up.
    pub fn init_log_file(
        &mut self,
        file_prefix: &[u8],
        max_file_size: u32,
        store_buffer_length: bool,
    )
        requires
            old(self).wf(),
            store_buffer_length ==> max_file_size > 2,
            file_prefix@.len() <= FILE_NAME_STRING_SIZE,
        ensures
            final(self).wf(),
            final(self)@ == (LoggerState {
                file_prefix: file_prefix@,
                max_file_size,
                store_buffer_length,
                initialized: true,
                ..old(self)@
            }),
    {
        self.max_file_size = max_file_size;
        self.store_buffer_length = store_buffer_length;
        self.file_prefix = bytes::copy_bytes(file_prefix);
        self.initialized = true;
    }

    /// Notes that someone listens for the answers to pings.
    pub fn connect_ping(&mut self)
        requires
            old(self).wf(),
        ensures
            final(self).wf(),
            final(self)@ == (LoggerState { ping_connected: true, ..old(self)@ }),
    {
        self.ping_connected = true;
    }

    /// Registers the command.
    pub fn reg_commands(&self, out: &mut Vec<Action>)
        ensures
            outputs::views(final(out)@) == outputs::views(old(out)@).push(
                Action::CmdReg { op_code: self@.id_base },
            ),
    {
        outputs::emit(out, Action::CmdReg { op_code: self.id_base });
    }

    /// The number that the component's identifiers start at.
    pub fn id_base(&self) -> (r: u32)
        ensures
            r == self@.id_base,
    {
        self.id_base
    }

    /// The name of the file that is open, or was last.
    pub fn file_name(&self) -> (r: Vec<u8>)
        ensures
            r@ == self@.file_name,
    {
        bytes::copy_bytes(self.file_name.as_slice())
    }

    /// Whether a file is open.
    pub fn is_file_open(&self) -> (r: bool)
        ensures
            r == self@.open,
    {
        self.open
    }

    /// Whether the logger waits for no file operation.
    pub fn is_idle(&self) -> (r: bool)
        ensures
            r == (self@.task is Idle),
    {
        match self.task {
            Task::Idle => true,
            _ => false,
        }
    }

    /// Whether the names of a file opened at a given time, and of its checksum file, are
    /// not too long.
    pub fn name_fits(&self, now: &Time) -> (r: bool)
        ensures
            r == self@.name_fits(*now),
    {
        if !self.initialized {
            return true;
        }
        let name: Vec<u8> = dictionary::make_file_name(self.file_prefix.as_slice(), now);
        name.len() <= FILE_NAME_STRING_SIZE - HASH_EXTENSION_SIZE
    }

    /// Whether the file that is being closed can be followed, at a given time, by what is
    /// to be done then.
    pub fn can_go_on(&self, now: &Time) -> (r: bool)
        ensures
            r == self@.can_go_on(*now),
    {
        match &self.task {
            Task::Closing { after: AfterClose::Log { .. } } => self.name_fits(now),
            _ => true,
        }
    }

    /// Reports an event.
    fn report(&self, event: LoggerEvent, out: &mut Vec<Action>)
        ensures
            trace(*self, final(out)@) == trace(*self, old(out)@).report(event@),
    {
        outputs::emit(out, Action::Event(event));
    }

    /// Answers a command.
    fn answer(&self, op_code: u32, cmd_seq: u32, response: CmdResponse, out: &mut Vec<Action>)
        ensures
            trace(*self, final(out)@) == trace(*self, old(out)@).answer(op_code, cmd_seq, response),
    {
        outputs::emit(out, Action::CmdResponse { op_code, cmd_seq, response });
    }

    /// Asks for the open file to be closed.
    fn close_file(&mut self, after: AfterClose, out: &mut Vec<Action>)
        requires
            old(self).wf(),
            old(self)@.open,
            match after@ {
                AfterClose::Log { record } => record.len() <= 0xFFFF,
                AfterClose::Answer { .. } => true,
            },
        ensures
            final(self).wf(),
            trace(*final(self), final(out)@) == trace(*old(self), old(out)@).close(after@),
    {
        let ghost t = trace(*self, out@);
        self.task = Task::Closing { after };
        let name: Vec<u8> = bytes::copy_bytes(self.file_name.as_slice());
        let hash_name: Vec<u8> = bytes::copy_bytes(self.hash_file_name.as_slice());
        outputs::emit(out, Action::CloseFile { name, hash_name });
        assert(trace(*self, out@) =~= t.close(after@));
    }

    /// Asks for a file to be opened for a record, if the logger has been set up.
    fn open_file(&mut self, record: Vec<u8>, now: &Time, out: &mut Vec<Action>)
        requires
            old(self).wf(),
            !old(self)@.open,
            old(self)@.name_fits(*now),
            record@.len() <= 0xFFFF,
        ensures
            final(self).wf(),
            trace(*final(self), final(out)@) == trace(*old(self), old(out)@).open_for(
                record@,
                *now,
            ),
    {
        let ghost t = trace(*self, out@);
        if !self.initialized {
            self.task = Task::Idle;
            if self.file_not_initialized_throttle.should_emit() {
                self.report(LoggerEvent::FileNotInitialized, out);
            }
            assert(trace(*self, out@) =~= t.open_for(record@, *now));
            return;
        }
        let name: Vec<u8> = dictionary::make_file_name(self.file_prefix.as_slice(), now);
        self.hash_file_name = dictionary::make_hash_name(name.as_slice());
        self.file_name = bytes::copy_bytes(name.as_slice());
        self.task = Task::Opening { record };
        outputs::emit(out, Action::OpenFile { name });
        assert(trace(*self, out@) =~= t.open_for(record@, *now));
    }

    /// Asks for a record to be written.
    fn write_com_buffer_to_file(&mut self, record: Vec<u8>, out: &mut Vec<Action>)
        requires
            old(self).wf(),
            old(self)@.open,
            record@.len() <= 0xFFFF,
        ensures
            final(self).wf(),
            trace(*final(self), final(out)@) == trace(*old(self), old(out)@).write_record(record@),
    {
        let ghost t = trace(*self, out@);
        let mut data: Vec<u8> = Vec::new();
        if self.store_buffer_length {
            bytes::push_u16(&mut data, record.len() as u16);
            assert(data@ =~= bytes::be16(record@.len() as u16));
            self.task = Task::WritingLength { record };
        } else {
            data = bytes::copy_bytes(record.as_slice());
            self.task = Task::WritingRecord { record };
        }
        outputs::emit(out, Action::WriteFile { data });
        assert(trace(*self, out@) =~= t.write_record(record@));
    }

    /// A packet comes in, at the time that the clock shows.
    pub fn com_in(&mut self, data: &[u8], now: &Time, out: &mut Vec<Action>)
        requires
            old(self).wf(),
            old(self)@.task is Idle,
            data@.len() <= 0xFFFF,
            !old(self)@.open ==> old(self)@.name_fits(*now),
        ensures
            final(self).wf(),
            trace(*final(self), final(out)@) == trace(*old(self), old(out)@).com_in(data@, *now),
    {
        let record: Vec<u8> = bytes::copy_bytes(data);
        if self.open {
            let size: usize = if self.store_buffer_length {
                record.len() + 2
            } else {
                record.len()
            };
            if counter::advance(self.byte_count, size) > self.max_file_size {
                self.close_file(AfterClose::Log { record }, out);
            } else {
                self.write_com_buffer_to_file(record, out);
            }
        } else {
            self.open_file(record, now, out);
        }
    }

    /// The open file has been closed, `validation` being what came of its checksum file.
    pub fn file_closed(&mut self, validation: ValidateStatus, now: &Time, out: &mut Vec<Action>)
        requires
            old(self).wf(),
            old(self)@.task is Closing,
            old(self)@.can_go_on(*now),
        ensures
            final(self).wf(),
            trace(*final(self), final(out)@) == trace(*old(self), old(out)@).file_closed(
                validation,
                *now,
            ),
    {
        let ghost t = trace(*self, out@);
        let mut task: Task = Task::Idle;
        std::mem::swap(&mut self.task, &mut task);
        if validation != ValidateStatus::ValidationOk {
            self.report(
                LoggerEvent::FileValidationError {
                    validation_file: bytes::copy_bytes(self.hash_file_name.as_slice()),
                    file: bytes::copy_bytes(self.file_name.as_slice()),
                    status: validation.as_repr(),
                },
                out,
            );
        }
        self.open = false;
        self.report(
            LoggerEvent::FileClosed { file: bytes::copy_bytes(self.file_name.as_slice()) },
            out,
        );
        match task {
            Task::Closing { after: AfterClose::Log { record } } => {
                self.open_file(record, now, out);
            },
            Task::Closing { after: AfterClose::Answer { op_code, cmd_seq } } => {
                self.answer(op_code, cmd_seq, CmdResponse::OK, out);
            },
            _ => {},
        }
        assert(trace(*self, out@) =~= t.file_closed(validation, *now));
    }

    /// An attempt to open a file has ended.
    pub fn file_opened(&mut self, status: FileStatus, out: &mut Vec<Action>)
        requires
            old(self).wf(),
            old(self)@.task is Opening,
        ensures
            final(self).wf(),
            trace(*final(self), final(out)@) == trace(*old(self), old(out)@).file_opened(status),
    {
        let ghost t = trace(*self, out@);
        let mut task: Task = Task::Idle;
        std::mem::swap(&mut self.task, &mut task);
        match task {
            Task::Opening { record } => {
                if status == FileStatus::OpOk {
                    self.open_error_occurred = false;
                    self.byte_count = 0;
                    self.open = true;
                    self.write_com_buffer_to_file(record, out);
                } else {
                    let first: bool = !self.open_error_occurred;
                    self.open_error_occurred = true;
                    if first {
                        self.report(
                            LoggerEvent::FileOpenError {
                                errornum: status.as_repr() as u32,
                                file: bytes::copy_bytes(self.file_name.as_slice()),
                            },
                            out,
                        );
                    }
                }
            },
            _ => {},
        }
        assert(trace(*self, out@) =~= t.file_opened(status));
    }

    /// Takes note of a write of `length` bytes that wrote `size`.
    fn write_to_file(
        &mut self,
        status: FileStatus,
        size: u64,
        length: usize,
        out: &mut Vec<Action>,
    ) -> (r: bool)
        requires
            old(self).wf(),
            old(self)@.task is Idle,
            length <= 0xFFFF,
        ensures
            final(self).wf(),
            r == (status == FileStatus::OpOk && size == length),
            trace(*final(self), final(out)@) == (if r {
                trace(*old(self), old(out)@).write_done(length as nat)
            } else {
                trace(*old(self), old(out)@).write_failed(status, size, length as nat)
            }),
    {
        let ghost t = trace(*self, out@);
        if status != FileStatus::OpOk || size != length as u64 {
            let first: bool = !self.write_error_occurred;
            self.write_error_occurred = true;
            if first {
                self.report(
                    LoggerEvent::FileWriteError {
                        errornum: status.as_repr() as u32,
                        bytes_written: (size % 0x1_0000_0000) as u32,
                        bytes_to_write: length as u32,
                        file: bytes::copy_bytes(self.file_name.as_slice()),
                    },
                    out,
                );
            }
            assert(trace(*self, out@) =~= t.write_failed(status, size, length as nat));
            return false;
        }
        self.write_error_occurred = false;
        self.byte_count = counter::advance(self.byte_count, length);
        assert(trace(*self, out@) =~= t.write_done(length as nat));
        true
    }

    /// A write has ended, having written `size` bytes.
    pub fn file_written(&mut self, status: FileStatus, size: u64, out: &mut Vec<Action>)
        requires
            old(self).wf(),
            old(self)@.task is WritingLength || old(self)@.task is WritingRecord,
        ensures
            final(self).wf(),
            trace(*final(self), final(out)@) == trace(*old(self), old(out)@).file_written(
                status,
                size,
            ),
    {
        let ghost t = trace(*self, out@);
        let mut task: Task = Task::Idle;
        std::mem::swap(&mut self.task, &mut task);
        match task {
            Task::WritingLength { record } => {
                if self.write_to_file(status, size, 2, out) {
                    let data: Vec<u8> = bytes::copy_bytes(record.as_slice());
                    self.task = Task::WritingRecord { record };
                    outputs::emit(out, Action::WriteFile { data });
                }
            },
            Task::WritingRecord { record } => {
                let _ = self.write_to_file(status, size, record.len(), out);
            },
            _ => {},
        }
        assert(trace(*self, out@) =~= t.file_written(status, size));
    }

    /// Answers a ping, if anyone listens.
    pub fn ping_in(&self, key: u32, out: &mut Vec<Action>)
        ensures
            trace(*self, final(out)@) == trace(*self, old(out)@).ping(key),
    {
        if self.ping_connected {
            outputs::emit(out, Action::PingOut { key });
        }
    }

    /// A command comes in.
    pub fn cmd_in(&mut self, op_code: u32, cmd_seq: u32, args: &[u8], out: &mut Vec<Action>)
        requires
            old(self).wf(),
            old(self)@.task is Idle,
        ensures
            final(self).wf(),
            trace(*final(self), final(out)@) == trace(*old(self), old(out)@).command(
                op_code,
                cmd_seq,
                args@,
            ),
    {
        if counter::offset(op_code, self.id_base) != dictionary::OPCODE_CLOSE_FILE {
            self.answer(op_code, cmd_seq, CmdResponse::InvalidOpcode, out);
        } else if args.len() != 0 {
            self.answer(op_code, cmd_seq, CmdResponse::FormatError, out);
        } else if self.open {
            self.close_file(AfterClose::Answer { op_code, cmd_seq }, out);
        } else {
            self.answer(op_code, cmd_seq, CmdResponse::OK, out);
        }
    }

    /// The logger goes out of use. An open file is closed without a report.
    pub fn shut_down(&mut self, out: &mut Vec<Action>)
        requires
            old(self).wf(),
            old(self)@.task is Idle,
        ensures
            final(self).wf(),
            trace(*final(self), final(out)@) == trace(*old(self), old(out)@).shut_down(),
    {
        let ghost t = trace(*self, out@);
        if self.open {
            let name: Vec<u8> = bytes::copy_bytes(self.file_name.as_slice());
            let hash_name: Vec<u8> = bytes::copy_bytes(self.hash_file_name.as_slice());
            outputs::emit(out, Action::CloseFile { name, hash_name });
            self.open = false;
        }
        assert(trace(*self, out@) =~= t.shut_down());
    }
}

} // verus!
