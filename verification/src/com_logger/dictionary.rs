//! Opcodes, events, file names and the outputs of the logger.
use vstd::prelude::*;

use crate::fw::bytes;
use crate::fw::decimal;
use crate::fw::text;
use crate::fw::time::Time;
use crate::fw::types::{CmdResponse, LogSeverity};

verus! {

broadcast use crate::fw::bytes::lemma_be32_len;

/// Close the file.
pub const OPCODE_CLOSE_FILE: u32 = 0;

/// `FileOpenError`.
pub const EVENTID_FILE_OPEN_ERROR: u32 = 0;

/// `FileWriteError`.
pub const EVENTID_FILE_WRITE_ERROR: u32 = 1;

/// `FileValidationError`.
pub const EVENTID_FILE_VALIDATION_ERROR: u32 = 2;

/// `FileClosed`.
pub const EVENTID_FILE_CLOSED: u32 = 3;

/// `FileNotInitialized`.
pub const EVENTID_FILE_NOT_INITIALIZED: u32 = 4;

/// How often a logger that was not set up is reported.
pub const FILE_NOT_INITIALIZED_THROTTLE: u32 = 5;

/// How long a file name can be.
pub const FILE_NAME_STRING_SIZE: usize = 240;

/// How much of a file name an event carries.
pub const EVENT_STRING_SIZE: usize = 200;

/// How long what is added to a file name to name its checksum file is.
pub const HASH_EXTENSION_SIZE: usize = 6;

/// What is added to a file name to name its checksum file: `.CRC32`.
pub open spec fn hash_extension() -> Seq<u8> {
    seq![0x2Eu8, 0x43, 0x52, 0x43, 0x33, 0x32]
}

/// The name of the checksum file of a file.
pub open spec fn hash_name(name: Seq<u8>) -> Seq<u8> {
    name + hash_extension()
}

/// The name of a file that is opened at a given time: the prefix, the time base, the
/// seconds and six digits of microseconds, joined by underscores, and `.com`.
pub open spec fn file_name(prefix: Seq<u8>, now: Time) -> Seq<u8> {
    prefix.push(0x5F) + decimal::digits(now.base.code() as nat).push(0x5F) + decimal::digits(
        now.seconds as nat,
    ).push(0x5F) + decimal::padded(now.useconds as nat, 6) + seq![0x2Eu8, 0x63, 0x6F, 0x6D]
}

/// The name of a file that is opened at a given time.
pub fn make_file_name(prefix: &[u8], now: &Time) -> (r: Vec<u8>)
    ensures
        r@ == file_name(prefix@, *now),
{
    let mut out: Vec<u8> = Vec::new();
    bytes::push_bytes(&mut out, prefix);
    bytes::push_u8(&mut out, 0x5F);
    let base: Vec<u8> = decimal::to_digits(now.base.as_repr() as u32);
    bytes::push_bytes(&mut out, base.as_slice());
    bytes::push_u8(&mut out, 0x5F);
    let seconds: Vec<u8> = decimal::to_digits(now.seconds);
    bytes::push_bytes(&mut out, seconds.as_slice());
    bytes::push_u8(&mut out, 0x5F);
    let useconds: Vec<u8> = decimal::to_padded(now.useconds, 6);
    bytes::push_bytes(&mut out, useconds.as_slice());
    bytes::push_u8(&mut out, 0x2E);
    bytes::push_u8(&mut out, 0x63);
    bytes::push_u8(&mut out, 0x6F);
    bytes::push_u8(&mut out, 0x6D);
    assert(out@ =~= file_name(prefix@, *now));
    out
}

/// The name of the checksum file of a file.
pub fn make_hash_name(name: &[u8]) -> (r: Vec<u8>)
    ensures
        r@ == hash_name(name@),
{
    let mut out: Vec<u8> = bytes::copy_bytes(name);
    bytes::push_u8(&mut out, 0x2E);
    bytes::push_u8(&mut out, 0x43);
    bytes::push_u8(&mut out, 0x52);
    bytes::push_u8(&mut out, 0x43);
    bytes::push_u8(&mut out, 0x33);
    bytes::push_u8(&mut out, 0x32);
    assert(out@ =~= hash_name(name@));
    out
}

/// What the logger reports. `B` holds bytes: a `Vec<u8>` in memory, a `Seq<u8>` in
/// contracts.
#[derive(Debug)]
pub enum LoggerEvent<B = Vec<u8>> {
    /// A file could not be opened.
    FileOpenError { errornum: u32, file: B },
    /// A file could not be written.
    FileWriteError { errornum: u32, bytes_written: u32, bytes_to_write: u32, file: B },
    /// A checksum file could not be made.
    FileValidationError { validation_file: B, file: B, status: u32 },
    /// A file was closed.
    FileClosed { file: B },
    /// The logger was not set up.
    FileNotInitialized,
}

impl View for LoggerEvent<Vec<u8>> {
    type V = LoggerEvent<Seq<u8>>;

    open spec fn view(&self) -> LoggerEvent<Seq<u8>> {
        match self {
            LoggerEvent::FileOpenError { errornum, file } => LoggerEvent::FileOpenError {
                errornum: *errornum,
                file: file@,
            },
            LoggerEvent::FileWriteError { errornum, bytes_written, bytes_to_write, file } => LoggerEvent::FileWriteError {
                errornum: *errornum,
                bytes_written: *bytes_written,
                bytes_to_write: *bytes_to_write,
                file: file@,
            },
            LoggerEvent::FileValidationError { validation_file, file, status } => LoggerEvent::FileValidationError {
                validation_file: validation_file@,
                file: file@,
                status: *status,
            },
            LoggerEvent::FileClosed { file } => LoggerEvent::FileClosed { file: file@ },
            LoggerEvent::FileNotInitialized => LoggerEvent::FileNotInitialized,
        }
    }
}

/// As much of a name as an event carries.
pub open spec fn cut(name: Seq<u8>) -> Seq<u8> {
    if name.len() <= EVENT_STRING_SIZE {
        name
    } else {
        name.take(EVENT_STRING_SIZE as int)
    }
}

/// Appends as much of a name as an event carries.
fn push_name(out: &mut Vec<u8>, name: &[u8])
    ensures
        final(out)@ == old(out)@ + bytes::be_string(cut(name@)),
{
    if name.len() <= EVENT_STRING_SIZE {
        bytes::push_string(out, name);
    } else {
        let head: Vec<u8> = bytes::copy_range(name, 0, EVENT_STRING_SIZE);
        assert(head@ =~= name@.take(EVENT_STRING_SIZE as int));
        bytes::push_string(out, head.as_slice());
    }
}

impl LoggerEvent<Seq<u8>> {
    /// The event identifier, relative to the component's base.
    pub open spec fn id_spec(self) -> u32 {
        match self {
            LoggerEvent::FileOpenError { .. } => EVENTID_FILE_OPEN_ERROR,
            LoggerEvent::FileWriteError { .. } => EVENTID_FILE_WRITE_ERROR,
            LoggerEvent::FileValidationError { .. } => EVENTID_FILE_VALIDATION_ERROR,
            LoggerEvent::FileClosed { .. } => EVENTID_FILE_CLOSED,
            LoggerEvent::FileNotInitialized => EVENTID_FILE_NOT_INITIALIZED,
        }
    }

    /// How serious the event is.
    pub open spec fn severity_spec(self) -> LogSeverity {
        match self {
            LoggerEvent::FileOpenError { .. } => LogSeverity::WarningHi,
            LoggerEvent::FileWriteError { .. } => LogSeverity::WarningHi,
            LoggerEvent::FileValidationError { .. } => LogSeverity::WarningLo,
            LoggerEvent::FileClosed { .. } => LogSeverity::Diagnostic,
            LoggerEvent::FileNotInitialized => LogSeverity::WarningLo,
        }
    }

    /// The arguments on the wire.
    pub open spec fn wire(self) -> Seq<u8> {
        match self {
            LoggerEvent::FileOpenError { errornum, file } => bytes::be32(errornum)
                + bytes::be_string(cut(file)),
            LoggerEvent::FileWriteError { errornum, bytes_written, bytes_to_write, file } => bytes::be32(
                errornum,
            ) + bytes::be32(bytes_written) + bytes::be32(bytes_to_write) + bytes::be_string(
                cut(file),
            ),
            LoggerEvent::FileValidationError { validation_file, file, status } => bytes::be_string(
                cut(validation_file),
            ) + bytes::be_string(cut(file)) + bytes::be32(status),
            LoggerEvent::FileClosed { file } => bytes::be_string(cut(file)),
            LoggerEvent::FileNotInitialized => Seq::empty(),
        }
    }
}

impl LoggerEvent<Vec<u8>> {
    /// The event identifier, relative to the component's base.
    pub fn id(&self) -> (r: u32)
        ensures
            r == self@.id_spec(),
    {
        match self {
            LoggerEvent::FileOpenError { .. } => EVENTID_FILE_OPEN_ERROR,
            LoggerEvent::FileWriteError { .. } => EVENTID_FILE_WRITE_ERROR,
            LoggerEvent::FileValidationError { .. } => EVENTID_FILE_VALIDATION_ERROR,
            LoggerEvent::FileClosed { .. } => EVENTID_FILE_CLOSED,
            LoggerEvent::FileNotInitialized => EVENTID_FILE_NOT_INITIALIZED,
        }
    }

    /// How serious the event is.
    pub fn severity(&self) -> (r: LogSeverity)
        ensures
            r == self@.severity_spec(),
    {
        match self {
            LoggerEvent::FileOpenError { .. } => LogSeverity::WarningHi,
            LoggerEvent::FileWriteError { .. } => LogSeverity::WarningHi,
            LoggerEvent::FileValidationError { .. } => LogSeverity::WarningLo,
            LoggerEvent::FileClosed { .. } => LogSeverity::Diagnostic,
            LoggerEvent::FileNotInitialized => LogSeverity::WarningLo,
        }
    }

    /// The arguments on the wire.
    pub fn args(&self) -> (r: Vec<u8>)
        ensures
            r@ == self@.wire(),
    {
        let mut out: Vec<u8> = Vec::new();
        match self {
            LoggerEvent::FileOpenError { errornum, file } => {
                bytes::push_u32(&mut out, *errornum);
                push_name(&mut out, file.as_slice());
            },
            LoggerEvent::FileWriteError { errornum, bytes_written, bytes_to_write, file } => {
                bytes::push_u32(&mut out, *errornum);
                bytes::push_u32(&mut out, *bytes_written);
                bytes::push_u32(&mut out, *bytes_to_write);
                push_name(&mut out, file.as_slice());
            },
            LoggerEvent::FileValidationError { validation_file, file, status } => {
                push_name(&mut out, validation_file.as_slice());
                push_name(&mut out, file.as_slice());
                bytes::push_u32(&mut out, *status);
            },
            LoggerEvent::FileClosed { file } => {
                push_name(&mut out, file.as_slice());
            },
            LoggerEvent::FileNotInitialized => {},
        }
        assert(out@ =~= self@.wire());
        out
    }
}

impl LoggerEvent<Seq<u8>> {
    /// The text of the event.
    pub open spec fn text_spec(self) -> Seq<u8> {
        match self {
            LoggerEvent::FileOpenError { errornum, file } => text::words("Error "@)
                + decimal::digits(errornum as nat) + text::words(" opening file "@) + file,
            LoggerEvent::FileWriteError { errornum, bytes_written, bytes_to_write, file } =>
                text::words("Error "@) + decimal::digits(errornum as nat)
                + text::words(" while writing "@) + decimal::digits(bytes_written as nat)
                + text::words(" of "@) + decimal::digits(bytes_to_write as nat)
                + text::words(" bytes to "@) + file,
            LoggerEvent::FileValidationError { validation_file, file, status } =>
                text::words("The ComLogger failed to create a validation file "@) + validation_file
                + text::words(" for "@) + file + text::words(" with error "@)
                + decimal::digits(status as nat) + text::words("."@),
            LoggerEvent::FileClosed { file } => text::words("File "@) + file
                + text::words(" closed successfully."@),
            LoggerEvent::FileNotInitialized =>
                text::words("Could not open ComLogger file. File not initialized"@),
        }
    }
}

impl LoggerEvent<Vec<u8>> {
    /// The text of the event.
    pub fn text(&self) -> (r: Vec<u8>)
        ensures
            r@ == self@.text_spec(),
    {
        match self {
            LoggerEvent::FileOpenError { errornum, file } => {
                let mut out: Vec<u8> = text::begin("Error ");
                text::push_number(&mut out, *errornum as u64);
                text::push_words(&mut out, " opening file ");
                text::push_name(&mut out, file.as_slice());
                out
            },
            LoggerEvent::FileWriteError { errornum, bytes_written, bytes_to_write, file } => {
                let mut out: Vec<u8> = text::begin("Error ");
                text::push_number(&mut out, *errornum as u64);
                text::push_words(&mut out, " while writing ");
                text::push_number(&mut out, *bytes_written as u64);
                text::push_words(&mut out, " of ");
                text::push_number(&mut out, *bytes_to_write as u64);
                text::push_words(&mut out, " bytes to ");
                text::push_name(&mut out, file.as_slice());
                out
            },
            LoggerEvent::FileValidationError { validation_file, file, status } => {
                let mut out: Vec<u8> = text::begin("The ComLogger failed to create a validation file ");
                text::push_name(&mut out, validation_file.as_slice());
                text::push_words(&mut out, " for ");
                text::push_name(&mut out, file.as_slice());
                text::push_words(&mut out, " with error ");
                text::push_number(&mut out, *status as u64);
                text::push_words(&mut out, ".");
                out
            },
            LoggerEvent::FileClosed { file } => {
                let mut out: Vec<u8> = text::begin("File ");
                text::push_name(&mut out, file.as_slice());
                text::push_words(&mut out, " closed successfully.");
                out
            },
            LoggerEvent::FileNotInitialized => {
                text::begin("Could not open ComLogger file. File not initialized")
            },
        }
    }
}

/// What the logger asks its surroundings to do. `B` holds bytes. A file operation is the
/// last thing asked for, and is answered before anything else comes in.
#[derive(Debug)]
pub enum Action<B = Vec<u8>> {
    /// Report an event.
    Event(LoggerEvent<B>),
    /// Register an opcode.
    CmdReg { op_code: u32 },
    /// Answer a command.
    CmdResponse { op_code: u32, cmd_seq: u32, response: CmdResponse },
    /// Answer a ping.
    PingOut { key: u32 },
    /// Open a file to be written.
    OpenFile { name: B },
    /// Append to the open file.
    WriteFile { data: B },
    /// Close the open file and make its checksum file.
    CloseFile { name: B, hash_name: B },
}

impl View for Action<Vec<u8>> {
    type V = Action<Seq<u8>>;

    open spec fn view(&self) -> Action<Seq<u8>> {
        match self {
            Action::Event(event) => Action::Event(event@),
            Action::CmdReg { op_code } => Action::CmdReg { op_code: *op_code },
            Action::CmdResponse { op_code, cmd_seq, response } => Action::CmdResponse {
                op_code: *op_code,
                cmd_seq: *cmd_seq,
                response: *response,
            },
            Action::PingOut { key } => Action::PingOut { key: *key },
            Action::OpenFile { name } => Action::OpenFile { name: name@ },
            Action::WriteFile { data } => Action::WriteFile { data: data@ },
            Action::CloseFile { name, hash_name } => Action::CloseFile {
                name: name@,
                hash_name: hash_name@,
            },
        }
    }
}

} // verus!
