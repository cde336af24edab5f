//! What the logger does, as functions from a state and the outputs so far to the next state
//! and outputs.
use vstd::prelude::*;

use super::dictionary;
use super::dictionary::{Action, LoggerEvent, FILE_NAME_STRING_SIZE};
use super::validation::ValidateStatus;
use crate::fw::bytes;
use crate::fw::counter;
use crate::fw::throttle::EventThrottle;
use crate::fw::time::Time;
use crate::fw::types::{CmdResponse, FileStatus};

verus! {

/// What is done once a file is closed. `B` holds bytes.
#[derive(Debug)]
pub enum AfterClose<B = Vec<u8>> {
    /// A record is logged, in the next file.
    Log { record: B },
    /// A command is answered.
    Answer { op_code: u32, cmd_seq: u32 },
}

/// The file operation that the logger waits for. `B` holds bytes.
#[derive(Debug)]
pub enum Task<B = Vec<u8>> {
    /// None.
    Idle,
    /// A file is being closed.
    Closing { after: AfterClose<B> },
    /// A file is being opened for a record.
    Opening { record: B },
    /// The length of a record is being written.
    WritingLength { record: B },
    /// A record is being written.
    WritingRecord { record: B },
}

/// The state of the logger.
#[verifier::ext_equal]
pub struct LoggerState {
    /// The number that the component's identifiers start at.
    pub id_base: u32,
    /// Whether anyone listens for the answers to pings.
    pub ping_connected: bool,
    /// What file names begin with.
    pub file_prefix: Seq<u8>,
    /// How large a file may grow.
    pub max_file_size: u32,
    /// Whether each record is preceded by its length.
    pub store_buffer_length: bool,
    /// Whether the logger has been set up.
    pub initialized: bool,
    /// Whether a file is open.
    pub open: bool,
    /// The name of the file that is open, or was last.
    pub file_name: Seq<u8>,
    /// The name of its checksum file.
    pub hash_file_name: Seq<u8>,
    /// How many bytes were written to the file.
    pub byte_count: u32,
    /// Whether the last write failed.
    pub write_error: bool,
    /// Whether the last attempt to open a file failed.
    pub open_error: bool,
    /// Limits the reports of a logger that was not set up.
    pub throttle: EventThrottle,
    /// The file operation that the logger waits for.
    pub task: Task<Seq<u8>>,
}

impl LoggerState {
    /// The conditions that every operation keeps: the checksum file of an open file is
    /// named after it, a file is written and closed only while it is open, and opened only
    /// while none is; and every record fits its length.
    pub open spec fn valid(self) -> bool {
        &&& self.open || self.task is Opening ==> self.hash_file_name == dictionary::hash_name(
            self.file_name,
        )
        &&& self.task is Closing || self.task is WritingLength || self.task is WritingRecord
            ==> self.open
        &&& self.task is Opening ==> !self.open
        &&& match self.task {
            Task::Idle => true,
            Task::Closing { after: AfterClose::Log { record } } => record.len() <= 0xFFFF,
            Task::Closing { after: AfterClose::Answer { .. } } => true,
            Task::Opening { record } => record.len() <= 0xFFFF,
            Task::WritingLength { record } => record.len() <= 0xFFFF,
            Task::WritingRecord { record } => record.len() <= 0xFFFF,
        }
    }

    /// A logger that has not been set up.
    pub open spec fn initial(id_base: u32) -> LoggerState {
        LoggerState {
            id_base,
            ping_connected: false,
            file_prefix: Seq::empty(),
            max_file_size: 0,
            store_buffer_length: false,
            initialized: false,
            open: false,
            file_name: Seq::empty(),
            hash_file_name: Seq::empty(),
            byte_count: 0,
            write_error: false,
            open_error: false,
            throttle: EventThrottle {
                limit: dictionary::FILE_NOT_INITIALIZED_THROTTLE,
                count: 0,
            },
            task: Task::Idle,
        }
    }

    /// Whether the names of a file opened at a given time, and of its checksum file, are
    /// not too long.
    pub open spec fn name_fits(self, now: Time) -> bool {
        self.initialized ==> dictionary::hash_name(
            dictionary::file_name(self.file_prefix, now),
        ).len() <= FILE_NAME_STRING_SIZE
    }

    /// Whether the file that is being closed can be followed, at a given time, by what is
    /// to be done then.
    pub open spec fn can_go_on(self, now: Time) -> bool {
        match self.task {
            Task::Closing { after: AfterClose::Log { .. } } => self.name_fits(now),
            _ => true,
        }
    }

    /// How large the open file would be with one more record.
    pub open spec fn projected(self, size: nat) -> u32 {
        counter::advanced(
            self.byte_count,
            if self.store_buffer_length {
                size + 2
            } else {
                size
            },
        )
    }

    /// Whether the open file has no room for one more record.
    pub open spec fn is_full_for(self, size: nat) -> bool {
        self.open && self.projected(size) > self.max_file_size
    }
}

/// A state with the outputs that led to it.
#[verifier::ext_equal]
pub struct Trace {
    /// The state.
    pub state: LoggerState,
    /// The outputs so far.
    pub out: Seq<Action<Seq<u8>>>,
}

impl Trace {
    /// One more output.
    pub open spec fn emit(self, action: Action<Seq<u8>>) -> Trace {
        Trace { out: self.out.push(action), ..self }
    }

    /// An event is reported.
    pub open spec fn report(self, event: LoggerEvent<Seq<u8>>) -> Trace {
        self.emit(Action::Event(event))
    }

    /// A command is answered.
    pub open spec fn answer(self, op_code: u32, cmd_seq: u32, response: CmdResponse) -> Trace {
        self.emit(Action::CmdResponse { op_code, cmd_seq, response })
    }

    /// The logger waits for another file operation.
    pub open spec fn wait_for(self, task: Task<Seq<u8>>) -> Trace {
        Trace { state: LoggerState { task, ..self.state }, ..self }
    }

    /// The open file is to be closed.
    pub open spec fn close(self, after: AfterClose<Seq<u8>>) -> Trace {
        self.wait_for(Task::Closing { after }).emit(
            Action::CloseFile {
                name: self.state.file_name,
                hash_name: self.state.hash_file_name,
            },
        )
    }

    /// A file is to be opened for a record, if the logger has been set up.
    pub open spec fn open_for(self, record: Seq<u8>, now: Time) -> Trace {
        if self.state.initialized {
            let name = dictionary::file_name(self.state.file_prefix, now);
            Trace {
                state: LoggerState {
                    file_name: name,
                    hash_file_name: dictionary::hash_name(name),
                    task: Task::Opening { record },
                    ..self.state
                },
                ..self
            }.emit(Action::OpenFile { name })
        } else {
            let tried = Trace {
                state: LoggerState {
                    throttle: self.state.throttle.tried(),
                    task: Task::Idle,
                    ..self.state
                },
                ..self
            };
            if self.state.throttle.open() {
                tried.report(LoggerEvent::FileNotInitialized)
            } else {
                tried
            }
        }
    }

    /// A record is to be written to the open file.
    pub open spec fn write_record(self, record: Seq<u8>) -> Trace {
        if self.state.store_buffer_length {
            self.wait_for(Task::WritingLength { record }).emit(
                Action::WriteFile { data: bytes::be16(record.len() as u16) },
            )
        } else {
            self.wait_for(Task::WritingRecord { record }).emit(Action::WriteFile { data: record })
        }
    }

    /// A packet comes in.
    pub open spec fn com_in(self, record: Seq<u8>, now: Time) -> Trace {
        if self.state.is_full_for(record.len()) {
            self.close(AfterClose::Log { record })
        } else if self.state.open {
            self.write_record(record)
        } else {
            self.open_for(record, now)
        }
    }

    /// The open file has been closed.
    pub open spec fn file_closed(self, validation: ValidateStatus, now: Time) -> Trace {
        let checked = if validation == ValidateStatus::ValidationOk {
            self
        } else {
            self.report(
                LoggerEvent::FileValidationError {
                    validation_file: self.state.hash_file_name,
                    file: self.state.file_name,
                    status: validation.code(),
                },
            )
        };
        let closed = Trace {
            state: LoggerState { open: false, task: Task::Idle, ..self.state },
            ..checked
        }.report(LoggerEvent::FileClosed { file: self.state.file_name });
        match self.state.task {
            Task::Closing { after: AfterClose::Log { record } } => closed.open_for(record, now),
            Task::Closing { after: AfterClose::Answer { op_code, cmd_seq } } => closed.answer(
                op_code,
                cmd_seq,
                CmdResponse::OK,
            ),
            _ => closed,
        }
    }

    /// An attempt to open a file for a record has ended.
    pub open spec fn opened_for(self, record: Seq<u8>, status: FileStatus) -> Trace {
        if status == FileStatus::OpOk {
            Trace {
                state: LoggerState {
                    open: true,
                    open_error: false,
                    byte_count: 0,
                    task: Task::Idle,
                    ..self.state
                },
                ..self
            }.write_record(record)
        } else {
            let failed = Trace {
                state: LoggerState { open_error: true, task: Task::Idle, ..self.state },
                ..self
            };
            if self.state.open_error {
                failed
            } else {
                failed.report(
                    LoggerEvent::FileOpenError {
                        errornum: status.code() as u32,
                        file: self.state.file_name,
                    },
                )
            }
        }
    }

    /// An attempt to open a file has ended.
    pub open spec fn file_opened(self, status: FileStatus) -> Trace {
        match self.state.task {
            Task::Opening { record } => self.opened_for(record, status),
            _ => self,
        }
    }

    /// A write of `length` bytes has failed.
    pub open spec fn write_failed(self, status: FileStatus, size: u64, length: nat) -> Trace {
        let failed = Trace {
            state: LoggerState { write_error: true, task: Task::Idle, ..self.state },
            ..self
        };
        if self.state.write_error {
            failed
        } else {
            failed.report(
                LoggerEvent::FileWriteError {
                    errornum: status.code() as u32,
                    bytes_written: (size % 0x1_0000_0000) as u32,
                    bytes_to_write: length as u32,
                    file: self.state.file_name,
                },
            )
        }
    }

    /// A write of `length` bytes has succeeded.
    pub open spec fn write_done(self, length: nat) -> Trace {
        Trace {
            state: LoggerState {
                write_error: false,
                byte_count: counter::advanced(self.state.byte_count, length),
                task: Task::Idle,
                ..self.state
            },
            ..self
        }
    }

    /// A write has ended, having written `size` bytes.
    pub open spec fn file_written(self, status: FileStatus, size: u64) -> Trace {
        match self.state.task {
            Task::WritingLength { record } => if status == FileStatus::OpOk && size == 2 {
                self.write_done(2).wait_for(Task::WritingRecord { record }).emit(
                    Action::WriteFile { data: record },
                )
            } else {
                self.write_failed(status, size, 2)
            },
            Task::WritingRecord { record } => if status == FileStatus::OpOk && size
                == record.len() {
                self.write_done(record.len())
            } else {
                self.write_failed(status, size, record.len())
            },
            _ => self,
        }
    }

    /// A ping comes in.
    pub open spec fn ping(self, key: u32) -> Trace {
        if self.state.ping_connected {
            self.emit(Action::PingOut { key })
        } else {
            self
        }
    }

    /// A command comes in.
    pub open spec fn command(self, op_code: u32, cmd_seq: u32, args: Seq<u8>) -> Trace {
        if counter::offset_from(op_code, self.state.id_base) != dictionary::OPCODE_CLOSE_FILE {
            self.answer(op_code, cmd_seq, CmdResponse::InvalidOpcode)
        } else if args.len() != 0 {
            self.answer(op_code, cmd_seq, CmdResponse::FormatError)
        } else if self.state.open {
            self.close(AfterClose::Answer { op_code, cmd_seq })
        } else {
            self.answer(op_code, cmd_seq, CmdResponse::OK)
        }
    }

    /// The logger goes out of use. An open file is closed without a report.
    pub open spec fn shut_down(self) -> Trace {
        if self.state.open {
            Trace {
                state: LoggerState { open: false, task: Task::Idle, ..self.state },
                ..self
            }.emit(
                Action::CloseFile {
                    name: self.state.file_name,
                    hash_name: self.state.hash_file_name,
                },
            )
        } else {
            self
        }
    }
}

} // verus!
