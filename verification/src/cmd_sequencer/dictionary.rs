//! Opcodes, events, telemetry channels and the outputs of the sequencer.
use vstd::prelude::*;

use super::types::{FileReadStage, SeqMode};
use crate::fw::bytes;
use crate::fw::decimal;
use crate::fw::text;
use crate::fw::time::TimeBase;
use crate::fw::types::{CmdResponse, LogSeverity};

verus! {

broadcast use crate::fw::bytes::lemma_be32_len;

/// Run a sequence file.
pub const OPCODE_CS_RUN: u32 = 0;

/// Validate a sequence file.
pub const OPCODE_CS_VALIDATE: u32 = 1;

/// Cancel the running sequence.
pub const OPCODE_CS_CANCEL: u32 = 2;

/// Start the loaded sequence.
pub const OPCODE_CS_START: u32 = 3;

/// Advance by one record.
pub const OPCODE_CS_STEP: u32 = 4;

/// Let records advance on their own.
pub const OPCODE_CS_AUTO: u32 = 5;

/// Let records advance on command only.
pub const OPCODE_CS_MANUAL: u32 = 6;

/// Answer when the running sequence ends.
pub const OPCODE_CS_JOIN_WAIT: u32 = 7;

/// `CS_SequenceLoaded`.
pub const EVENTID_CS_SEQUENCE_LOADED: u32 = 0;

/// `CS_SequenceCanceled`.
pub const EVENTID_CS_SEQUENCE_CANCELED: u32 = 1;

/// `CS_FileReadError`.
pub const EVENTID_CS_FILE_READ_ERROR: u32 = 2;

/// `CS_FileInvalid`.
pub const EVENTID_CS_FILE_INVALID: u32 = 3;

/// `CS_RecordInvalid`.
pub const EVENTID_CS_RECORD_INVALID: u32 = 4;

/// `CS_FileSizeError`.
pub const EVENTID_CS_FILE_SIZE_ERROR: u32 = 5;

/// `CS_FileNotFound`.
pub const EVENTID_CS_FILE_NOT_FOUND: u32 = 6;

/// `CS_FileCrcFailure`.
pub const EVENTID_CS_FILE_CRC_FAILURE: u32 = 7;

/// `CS_CommandComplete`.
pub const EVENTID_CS_COMMAND_COMPLETE: u32 = 8;

/// `CS_SequenceComplete`.
pub const EVENTID_CS_SEQUENCE_COMPLETE: u32 = 9;

/// `CS_CommandError`.
pub const EVENTID_CS_COMMAND_ERROR: u32 = 10;

/// `CS_InvalidMode`.
pub const EVENTID_CS_INVALID_MODE: u32 = 11;

/// `CS_RecordMismatch`.
pub const EVENTID_CS_RECORD_MISMATCH: u32 = 12;

/// `CS_TimeBaseMismatch`.
pub const EVENTID_CS_TIME_BASE_MISMATCH: u32 = 13;

/// `CS_TimeContextMismatch`.
pub const EVENTID_CS_TIME_CONTEXT_MISMATCH: u32 = 14;

/// `CS_PortSequenceStarted`.
pub const EVENTID_CS_PORT_SEQUENCE_STARTED: u32 = 15;

/// `CS_UnexpectedCompletion`.
pub const EVENTID_CS_UNEXPECTED_COMPLETION: u32 = 16;

/// `CS_ModeSwitched`.
pub const EVENTID_CS_MODE_SWITCHED: u32 = 17;

/// `CS_NoSequenceActive`.
pub const EVENTID_CS_NO_SEQUENCE_ACTIVE: u32 = 18;

/// `CS_SequenceValid`.
pub const EVENTID_CS_SEQUENCE_VALID: u32 = 19;

/// `CS_SequenceTimeout`.
pub const EVENTID_CS_SEQUENCE_TIMEOUT: u32 = 20;

/// `CS_CmdStepped`.
pub const EVENTID_CS_CMD_STEPPED: u32 = 21;

/// `CS_CmdStarted`.
pub const EVENTID_CS_CMD_STARTED: u32 = 22;

/// `CS_JoinWaiting`.
pub const EVENTID_CS_JOIN_WAITING: u32 = 23;

/// `CS_JoinWaitingNotComplete`.
pub const EVENTID_CS_JOIN_WAITING_NOT_COMPLETE: u32 = 24;

/// `CS_NoRecords`.
pub const EVENTID_CS_NO_RECORDS: u32 = 25;

/// Telemetry channel of the number of successful loads.
pub const CHANID_CS_LOAD_COMMANDS: u32 = 0;

/// Telemetry channel of the number of canceled sequences.
pub const CHANID_CS_CANCEL_COMMANDS: u32 = 1;

/// Telemetry channel of the number of errors.
pub const CHANID_CS_ERRORS: u32 = 2;

/// Telemetry channel of the number of executed commands.
pub const CHANID_CS_COMMANDS_EXECUTED: u32 = 3;

/// Telemetry channel of the number of completed sequences.
pub const CHANID_CS_SEQUENCES_COMPLETED: u32 = 4;

/// Telemetry channel of the name of the running sequence.
pub const CHANID_CS_CURRENT_SEQUENCE: u32 = 5;

/// How much of a file name an event carries.
pub const EVENT_STRING_SIZE: usize = 60;

/// How much of a file name a telemetry channel or a port carries.
pub const FILE_NAME_STRING_SIZE: usize = 240;

/// What an event says, apart from the name of the sequence file.
#[allow(inconsistent_fields)]
#[derive(Debug, Clone, Copy, PartialEq, Eq, Structural)]
pub enum SequencerEvent {
    /// A sequence was loaded.
    SequenceLoaded,
    /// The running sequence was canceled.
    SequenceCanceled,
    /// The file could not be opened.
    FileReadError,
    /// The file could not be read or taken apart.
    FileInvalid { stage: FileReadStage, error: i32 },
    /// A record is malformed.
    RecordInvalid { record_number: u32, error: i32 },
    /// The file is larger than the sequence buffer.
    FileSizeError { size: u32 },
    /// There is no such file.
    FileNotFound,
    /// The checksum does not match.
    FileCrcFailure { stored: u32, computed: u32 },
    /// A command of the sequence was carried out.
    CommandComplete { record_number: u32, op_code: u32 },
    /// The sequence has come to its end.
    SequenceComplete,
    /// A command of the sequence failed.
    CommandError { record_number: u32, op_code: u32, error_status: u32 },
    /// The request does not go with the mode.
    InvalidMode,
    /// Bytes are left over after the last record.
    RecordMismatch { header_records: u32, extra_bytes: u32 },
    /// The sequence counts time from something else than the clock.
    TimeBaseMismatch { current: TimeBase, seq: TimeBase },
    /// The sequence counts time on another clock.
    TimeContextMismatch { current: u8, seq: u8 },
    /// A sequence was started through a port.
    PortSequenceStarted,
    /// A command completed while no sequence was running.
    UnexpectedCompletion { op_code: u32 },
    /// The stepping mode was changed.
    ModeSwitched { mode: SeqMode },
    /// There is nothing to cancel, start, step or wait for.
    NoSequenceActive,
    /// A sequence file is valid.
    SequenceValid,
    /// A command of the sequence was not answered in time.
    SequenceTimeout { command: u32 },
    /// The sequence advanced by one record.
    CmdStepped { command: u32 },
    /// The loaded sequence was started by command.
    CmdStarted,
    /// A command waits for the end of the sequence.
    JoinWaiting { record_number: u32, op_code: u32 },
    /// A command that waits for the end of the sequence is still waiting.
    JoinWaitingNotComplete,
    /// The header says that there are no records.
    NoRecords,
}

impl SequencerEvent {
    /// The event identifier, relative to the component's base.
    pub open spec fn spec_id(self) -> u32 {
        match self {
            SequencerEvent::SequenceLoaded => EVENTID_CS_SEQUENCE_LOADED,
            SequencerEvent::SequenceCanceled => EVENTID_CS_SEQUENCE_CANCELED,
            SequencerEvent::FileReadError => EVENTID_CS_FILE_READ_ERROR,
            SequencerEvent::FileInvalid { .. } => EVENTID_CS_FILE_INVALID,
            SequencerEvent::RecordInvalid { .. } => EVENTID_CS_RECORD_INVALID,
            SequencerEvent::FileSizeError { .. } => EVENTID_CS_FILE_SIZE_ERROR,
            SequencerEvent::FileNotFound => EVENTID_CS_FILE_NOT_FOUND,
            SequencerEvent::FileCrcFailure { .. } => EVENTID_CS_FILE_CRC_FAILURE,
            SequencerEvent::CommandComplete { .. } => EVENTID_CS_COMMAND_COMPLETE,
            SequencerEvent::SequenceComplete => EVENTID_CS_SEQUENCE_COMPLETE,
            SequencerEvent::CommandError { .. } => EVENTID_CS_COMMAND_ERROR,
            SequencerEvent::InvalidMode => EVENTID_CS_INVALID_MODE,
            SequencerEvent::RecordMismatch { .. } => EVENTID_CS_RECORD_MISMATCH,
            SequencerEvent::TimeBaseMismatch { .. } => EVENTID_CS_TIME_BASE_MISMATCH,
            SequencerEvent::TimeContextMismatch { .. } => EVENTID_CS_TIME_CONTEXT_MISMATCH,
            SequencerEvent::PortSequenceStarted => EVENTID_CS_PORT_SEQUENCE_STARTED,
            SequencerEvent::UnexpectedCompletion { .. } => EVENTID_CS_UNEXPECTED_COMPLETION,
            SequencerEvent::ModeSwitched { .. } => EVENTID_CS_MODE_SWITCHED,
            SequencerEvent::NoSequenceActive => EVENTID_CS_NO_SEQUENCE_ACTIVE,
            SequencerEvent::SequenceValid => EVENTID_CS_SEQUENCE_VALID,
            SequencerEvent::SequenceTimeout { .. } => EVENTID_CS_SEQUENCE_TIMEOUT,
            SequencerEvent::CmdStepped { .. } => EVENTID_CS_CMD_STEPPED,
            SequencerEvent::CmdStarted => EVENTID_CS_CMD_STARTED,
            SequencerEvent::JoinWaiting { .. } => EVENTID_CS_JOIN_WAITING,
            SequencerEvent::JoinWaitingNotComplete => EVENTID_CS_JOIN_WAITING_NOT_COMPLETE,
            SequencerEvent::NoRecords => EVENTID_CS_NO_RECORDS,
        }
    }

    /// How serious the event is.
    pub open spec fn spec_severity(self) -> LogSeverity {
        match self {
            SequencerEvent::SequenceLoaded => LogSeverity::ActivityLo,
            SequencerEvent::CommandComplete { .. } => LogSeverity::ActivityLo,
            SequencerEvent::SequenceCanceled => LogSeverity::ActivityHi,
            SequencerEvent::SequenceComplete => LogSeverity::ActivityHi,
            SequencerEvent::PortSequenceStarted => LogSeverity::ActivityHi,
            SequencerEvent::ModeSwitched { .. } => LogSeverity::ActivityHi,
            SequencerEvent::SequenceValid => LogSeverity::ActivityHi,
            SequencerEvent::CmdStepped { .. } => LogSeverity::ActivityHi,
            SequencerEvent::CmdStarted => LogSeverity::ActivityHi,
            SequencerEvent::JoinWaiting { .. } => LogSeverity::ActivityHi,
            SequencerEvent::NoSequenceActive => LogSeverity::WarningLo,
            SequencerEvent::NoRecords => LogSeverity::WarningLo,
            _ => LogSeverity::WarningHi,
        }
    }

    /// Whether the event carries the name of the sequence file.
    pub open spec fn named(self) -> bool {
        match self {
            SequencerEvent::InvalidMode => false,
            SequencerEvent::UnexpectedCompletion { .. } => false,
            SequencerEvent::ModeSwitched { .. } => false,
            SequencerEvent::NoSequenceActive => false,
            SequencerEvent::JoinWaitingNotComplete => false,
            _ => true,
        }
    }

    /// The arguments on the wire, apart from the name.
    pub open spec fn detail(self) -> Seq<u8> {
        match self {
            SequencerEvent::FileInvalid { stage, error } => seq![stage.code()] + bytes::be32(
                bytes::bits32(error),
            ),
            SequencerEvent::RecordInvalid { record_number, error } => bytes::be32(record_number) + bytes::be32(
                bytes::bits32(error),
            ),
            SequencerEvent::FileSizeError { size } => bytes::be32(size),
            SequencerEvent::FileCrcFailure { stored, computed } => bytes::be32(stored) + bytes::be32(computed),
            SequencerEvent::CommandComplete { record_number, op_code } => bytes::be32(record_number)
                + bytes::be32(op_code),
            SequencerEvent::CommandError { record_number, op_code, error_status } => bytes::be32(
                record_number,
            ) + bytes::be32(op_code) + bytes::be32(error_status),
            SequencerEvent::RecordMismatch { header_records, extra_bytes } => bytes::be32(header_records)
                + bytes::be32(extra_bytes),
            SequencerEvent::TimeBaseMismatch { current, seq } => bytes::be16(current.code()) + bytes::be16(
                seq.code(),
            ),
            SequencerEvent::TimeContextMismatch { current, seq } => seq![current, seq],
            SequencerEvent::UnexpectedCompletion { op_code } => bytes::be32(op_code),
            SequencerEvent::ModeSwitched { mode } => seq![mode.code()],
            SequencerEvent::SequenceTimeout { command } => bytes::be32(command),
            SequencerEvent::CmdStepped { command } => bytes::be32(command),
            SequencerEvent::JoinWaiting { record_number, op_code } => bytes::be32(record_number) + bytes::be32(
                op_code,
            ),
            _ => Seq::empty(),
        }
    }

    /// The arguments on the wire, `name` being the name of the sequence file.
    pub open spec fn wire(self, name: Seq<u8>) -> Seq<u8> {
        if self.named() {
            bytes::be_string(
                if name.len() <= EVENT_STRING_SIZE {
                    name
                } else {
                    name.take(EVENT_STRING_SIZE as int)
                },
            ) + self.detail()
        } else {
            self.detail()
        }
    }

    /// The event identifier, relative to the component's base.
    pub fn id(&self) -> (r: u32)
        ensures
            r == self.spec_id(),
    {
        match self {
            SequencerEvent::SequenceLoaded => EVENTID_CS_SEQUENCE_LOADED,
            SequencerEvent::SequenceCanceled => EVENTID_CS_SEQUENCE_CANCELED,
            SequencerEvent::FileReadError => EVENTID_CS_FILE_READ_ERROR,
            SequencerEvent::FileInvalid { .. } => EVENTID_CS_FILE_INVALID,
            SequencerEvent::RecordInvalid { .. } => EVENTID_CS_RECORD_INVALID,
            SequencerEvent::FileSizeError { .. } => EVENTID_CS_FILE_SIZE_ERROR,
            SequencerEvent::FileNotFound => EVENTID_CS_FILE_NOT_FOUND,
            SequencerEvent::FileCrcFailure { .. } => EVENTID_CS_FILE_CRC_FAILURE,
            SequencerEvent::CommandComplete { .. } => EVENTID_CS_COMMAND_COMPLETE,
            SequencerEvent::SequenceComplete => EVENTID_CS_SEQUENCE_COMPLETE,
            SequencerEvent::CommandError { .. } => EVENTID_CS_COMMAND_ERROR,
            SequencerEvent::InvalidMode => EVENTID_CS_INVALID_MODE,
            SequencerEvent::RecordMismatch { .. } => EVENTID_CS_RECORD_MISMATCH,
            SequencerEvent::TimeBaseMismatch { .. } => EVENTID_CS_TIME_BASE_MISMATCH,
            SequencerEvent::TimeContextMismatch { .. } => EVENTID_CS_TIME_CONTEXT_MISMATCH,
            SequencerEvent::PortSequenceStarted => EVENTID_CS_PORT_SEQUENCE_STARTED,
            SequencerEvent::UnexpectedCompletion { .. } => EVENTID_CS_UNEXPECTED_COMPLETION,
            SequencerEvent::ModeSwitched { .. } => EVENTID_CS_MODE_SWITCHED,
            SequencerEvent::NoSequenceActive => EVENTID_CS_NO_SEQUENCE_ACTIVE,
            SequencerEvent::SequenceValid => EVENTID_CS_SEQUENCE_VALID,
            SequencerEvent::SequenceTimeout { .. } => EVENTID_CS_SEQUENCE_TIMEOUT,
            SequencerEvent::CmdStepped { .. } => EVENTID_CS_CMD_STEPPED,
            SequencerEvent::CmdStarted => EVENTID_CS_CMD_STARTED,
            SequencerEvent::JoinWaiting { .. } => EVENTID_CS_JOIN_WAITING,
            SequencerEvent::JoinWaitingNotComplete => EVENTID_CS_JOIN_WAITING_NOT_COMPLETE,
            SequencerEvent::NoRecords => EVENTID_CS_NO_RECORDS,
        }
    }

    /// How serious the event is.
    pub fn severity(&self) -> (r: LogSeverity)
        ensures
            r == self.spec_severity(),
    {
        match self {
            SequencerEvent::SequenceLoaded => LogSeverity::ActivityLo,
            SequencerEvent::CommandComplete { .. } => LogSeverity::ActivityLo,
            SequencerEvent::SequenceCanceled => LogSeverity::ActivityHi,
            SequencerEvent::SequenceComplete => LogSeverity::ActivityHi,
            SequencerEvent::PortSequenceStarted => LogSeverity::ActivityHi,
            SequencerEvent::ModeSwitched { .. } => LogSeverity::ActivityHi,
            SequencerEvent::SequenceValid => LogSeverity::ActivityHi,
            SequencerEvent::CmdStepped { .. } => LogSeverity::ActivityHi,
            SequencerEvent::CmdStarted => LogSeverity::ActivityHi,
            SequencerEvent::JoinWaiting { .. } => LogSeverity::ActivityHi,
            SequencerEvent::NoSequenceActive => LogSeverity::WarningLo,
            SequencerEvent::NoRecords => LogSeverity::WarningLo,
            _ => LogSeverity::WarningHi,
        }
    }

    /// Whether the event carries the name of the sequence file.
    pub fn is_named(&self) -> (r: bool)
        ensures
            r == self.named(),
    {
        match self {
            SequencerEvent::InvalidMode => false,
            SequencerEvent::UnexpectedCompletion { .. } => false,
            SequencerEvent::ModeSwitched { .. } => false,
            SequencerEvent::NoSequenceActive => false,
            SequencerEvent::JoinWaitingNotComplete => false,
            _ => true,
        }
    }

    /// The arguments on the wire, `name` being the name of the sequence file.
    pub fn args(&self, name: &[u8]) -> (r: Vec<u8>)
        ensures
            r@ == self.wire(name@),
    {
        let mut out: Vec<u8> = Vec::new();
        if self.is_named() {
            if name.len() <= EVENT_STRING_SIZE {
                bytes::push_string(&mut out, name);
            } else {
                let head: Vec<u8> = bytes::copy_range(name, 0, EVENT_STRING_SIZE);
                assert(head@ =~= name@.take(EVENT_STRING_SIZE as int));
                bytes::push_string(&mut out, head.as_slice());
            }
        }
        let ghost front = out@;
        match self {
            SequencerEvent::FileInvalid { stage, error } => {
                bytes::push_u8(&mut out, stage.as_repr());
                bytes::push_i32(&mut out, *error);
            },
            SequencerEvent::RecordInvalid { record_number, error } => {
                bytes::push_u32(&mut out, *record_number);
                bytes::push_i32(&mut out, *error);
            },
            SequencerEvent::FileSizeError { size } => {
                bytes::push_u32(&mut out, *size);
            },
            SequencerEvent::FileCrcFailure { stored, computed } => {
                bytes::push_u32(&mut out, *stored);
                bytes::push_u32(&mut out, *computed);
            },
            SequencerEvent::CommandComplete { record_number, op_code } => {
                bytes::push_u32(&mut out, *record_number);
                bytes::push_u32(&mut out, *op_code);
            },
            SequencerEvent::CommandError { record_number, op_code, error_status } => {
                bytes::push_u32(&mut out, *record_number);
                bytes::push_u32(&mut out, *op_code);
                bytes::push_u32(&mut out, *error_status);
            },
            SequencerEvent::RecordMismatch { header_records, extra_bytes } => {
                bytes::push_u32(&mut out, *header_records);
                bytes::push_u32(&mut out, *extra_bytes);
            },
            SequencerEvent::TimeBaseMismatch { current, seq } => {
                bytes::push_u16(&mut out, current.as_repr());
                bytes::push_u16(&mut out, seq.as_repr());
            },
            SequencerEvent::TimeContextMismatch { current, seq } => {
                bytes::push_u8(&mut out, *current);
                bytes::push_u8(&mut out, *seq);
            },
            SequencerEvent::UnexpectedCompletion { op_code } => {
                bytes::push_u32(&mut out, *op_code);
            },
            SequencerEvent::ModeSwitched { mode } => {
                bytes::push_u8(&mut out, mode.as_repr());
            },
            SequencerEvent::SequenceTimeout { command } => {
                bytes::push_u32(&mut out, *command);
            },
            SequencerEvent::CmdStepped { command } => {
                bytes::push_u32(&mut out, *command);
            },
            SequencerEvent::JoinWaiting { record_number, op_code } => {
                bytes::push_u32(&mut out, *record_number);
                bytes::push_u32(&mut out, *op_code);
            },
            _ => {},
        }
        assert(out@ =~= front + self.detail());
        assert(out@ =~= self.wire(name@));
        out
    }
}

impl SequencerEvent {
    /// The text of the event; `name` is the name of the sequence file.
    pub open spec fn spec_text(self, name: Seq<u8>) -> Seq<u8> {
        match self {
            SequencerEvent::SequenceLoaded => text::words("Loaded sequence "@) + name,
            SequencerEvent::SequenceCanceled => text::words("Sequence file canceled: "@) + name,
            SequencerEvent::FileReadError => text::words("Error reading sequence file "@) + name,
            SequencerEvent::FileInvalid { stage, error } => text::words("Sequence file "@) + name
                + text::words(" invalid. Stage: "@) + text::words(stage.spec_label())
                + text::words(" Error: "@) + decimal::signed(error as int),
            SequencerEvent::RecordInvalid { record_number, error } => text::words("Sequence file "@)
                + name + text::words(": Record "@) + decimal::digits(record_number as nat)
                + text::words(" invalid. Err: "@) + decimal::signed(error as int),
            SequencerEvent::FileSizeError { size } => text::words("Sequence file "@) + name
                + text::words(" too large. Size: "@) + decimal::digits(size as nat),
            SequencerEvent::FileNotFound => text::words("Sequence file not found: "@) + name,
            SequencerEvent::FileCrcFailure { stored, computed } => text::words("Sequence file "@)
                + name + text::words(" had invalid CRC. Stored 0x"@)
                + text::lower_hex(stored as nat) + text::words(", Computed 0x"@)
                + text::lower_hex(computed as nat) + text::words("."@),
            SequencerEvent::CommandComplete { record_number, op_code } =>
                text::words("Sequence file "@) + name + text::words(": Command "@)
                + decimal::digits(record_number as nat) + text::words(" (opcode "@)
                + decimal::digits(op_code as nat) + text::words(") complete"@),
            SequencerEvent::SequenceComplete => text::words("Sequence file complete: "@) + name,
            SequencerEvent::CommandError { record_number, op_code, error_status } =>
                text::words("Sequence file "@) + name + text::words(": Command "@)
                + decimal::digits(record_number as nat) + text::words(" (opcode "@)
                + decimal::digits(op_code as nat) + text::words(") completed with error "@)
                + decimal::digits(error_status as nat),
            SequencerEvent::InvalidMode => text::words("Invalid mode"@),
            SequencerEvent::RecordMismatch { header_records, extra_bytes } =>
                text::words("Sequence file "@) + name + text::words(" header records mismatch: "@)
                + decimal::digits(header_records as nat) + text::words(" in header, found "@)
                + decimal::digits(extra_bytes as nat) + text::words(" extra bytes."@),
            SequencerEvent::TimeBaseMismatch { current, seq } => text::words("Sequence file "@)
                + name + text::words(": Current time base doesn't match sequence time: base: "@)
                + decimal::digits(current.code() as nat) + text::words(" seq: "@)
                + decimal::digits(seq.code() as nat),
            SequencerEvent::TimeContextMismatch { current, seq } => text::words("Sequence file "@)
                + name
                + text::words(": Current time context doesn't match sequence context: base: "@)
                + decimal::digits(current as nat) + text::words(" seq: "@)
                + decimal::digits(seq as nat),
            SequencerEvent::PortSequenceStarted =>
                text::words("Local request for sequence started: "@) + name,
            SequencerEvent::UnexpectedCompletion { op_code } =>
                text::words("Command complete status received while no sequences active. Opcode: "@)
                + decimal::digits(op_code as nat),
            SequencerEvent::ModeSwitched { mode } => text::words("Sequencer switched to "@)
                + text::words(mode.spec_label()) + text::words(" step mode"@),
            SequencerEvent::NoSequenceActive => text::words("No sequence active."@),
            SequencerEvent::SequenceValid => text::words("Sequence is valid: "@) + name,
            SequencerEvent::SequenceTimeout { command } => text::words("Sequence "@) + name
                + text::words(" timed out on command "@) + decimal::digits(command as nat),
            SequencerEvent::CmdStepped { command } => text::words("Sequence "@) + name
                + text::words(" command "@) + decimal::digits(command as nat)
                + text::words(" stepped"@),
            SequencerEvent::CmdStarted => text::words("Sequence started: "@) + name,
            SequencerEvent::JoinWaiting { record_number, op_code } =>
                text::words("Start waiting for sequence file "@) + name
                + text::words(": Command "@) + decimal::digits(record_number as nat)
                + text::words(" (opcode "@) + decimal::digits(op_code as nat)
                + text::words(") to complete"@),
            SequencerEvent::JoinWaitingNotComplete =>
                text::words("Still waiting for sequence file to complete"@),
            SequencerEvent::NoRecords => text::words("Sequence file has no records. Ignoring: "@)
                + name,
        }
    }

    /// The text of the event; `name` is the name of the sequence file.
    pub fn text(&self, name: &[u8]) -> (r: Vec<u8>)
        ensures
            r@ == self.spec_text(name@),
    {
        match self {
            SequencerEvent::SequenceLoaded => {
                let mut out: Vec<u8> = text::begin("Loaded sequence ");
                text::push_name(&mut out, name);
                out
            },
            SequencerEvent::SequenceCanceled => {
                let mut out: Vec<u8> = text::begin("Sequence file canceled: ");
                text::push_name(&mut out, name);
                out
            },
            SequencerEvent::FileReadError => {
                let mut out: Vec<u8> = text::begin("Error reading sequence file ");
                text::push_name(&mut out, name);
                out
            },
            SequencerEvent::FileInvalid { stage, error } => {
                let mut out: Vec<u8> = text::begin("Sequence file ");
                text::push_name(&mut out, name);
                text::push_words(&mut out, " invalid. Stage: ");
                text::push_words(&mut out, stage.label());
                text::push_words(&mut out, " Error: ");
                text::push_signed(&mut out, *error as i32);
                out
            },
            SequencerEvent::RecordInvalid { record_number, error } => {
                let mut out: Vec<u8> = text::begin("Sequence file ");
                text::push_name(&mut out, name);
                text::push_words(&mut out, ": Record ");
                text::push_number(&mut out, *record_number as u64);
                text::push_words(&mut out, " invalid. Err: ");
                text::push_signed(&mut out, *error as i32);
                out
            },
            SequencerEvent::FileSizeError { size } => {
                let mut out: Vec<u8> = text::begin("Sequence file ");
                text::push_name(&mut out, name);
                text::push_words(&mut out, " too large. Size: ");
                text::push_number(&mut out, *size as u64);
                out
            },
            SequencerEvent::FileNotFound => {
                let mut out: Vec<u8> = text::begin("Sequence file not found: ");
                text::push_name(&mut out, name);
                out
            },
            SequencerEvent::FileCrcFailure { stored, computed } => {
                let mut out: Vec<u8> = text::begin("Sequence file ");
                text::push_name(&mut out, name);
                text::push_words(&mut out, " had invalid CRC. Stored 0x");
                text::push_lower_hex(&mut out, *stored);
                text::push_words(&mut out, ", Computed 0x");
                text::push_lower_hex(&mut out, *computed);
                text::push_words(&mut out, ".");
                out
            },
            SequencerEvent::CommandComplete { record_number, op_code } => {
                let mut out: Vec<u8> = text::begin("Sequence file ");
                text::push_name(&mut out, name);
                text::push_words(&mut out, ": Command ");
                text::push_number(&mut out, *record_number as u64);
                text::push_words(&mut out, " (opcode ");
                text::push_number(&mut out, *op_code as u64);
                text::push_words(&mut out, ") complete");
                out
            },
            SequencerEvent::SequenceComplete => {
                let mut out: Vec<u8> = text::begin("Sequence file complete: ");
                text::push_name(&mut out, name);
                out
            },
            SequencerEvent::CommandError { record_number, op_code, error_status } => {
                let mut out: Vec<u8> = text::begin("Sequence file ");
                text::push_name(&mut out, name);
                text::push_words(&mut out, ": Command ");
                text::push_number(&mut out, *record_number as u64);
                text::push_words(&mut out, " (opcode ");
                text::push_number(&mut out, *op_code as u64);
                text::push_words(&mut out, ") completed with error ");
                text::push_number(&mut out, *error_status as u64);
                out
            },
            SequencerEvent::InvalidMode => text::begin("Invalid mode"),
            SequencerEvent::RecordMismatch { header_records, extra_bytes } => {
                let mut out: Vec<u8> = text::begin("Sequence file ");
                text::push_name(&mut out, name);
                text::push_words(&mut out, " header records mismatch: ");
                text::push_number(&mut out, *header_records as u64);
                text::push_words(&mut out, " in header, found ");
                text::push_number(&mut out, *extra_bytes as u64);
                text::push_words(&mut out, " extra bytes.");
                out
            },
            SequencerEvent::TimeBaseMismatch { current, seq } => {
                let mut out: Vec<u8> = text::begin("Sequence file ");
                text::push_name(&mut out, name);
                text::push_words(&mut out, ": Current time base doesn't match sequence time: base: ");
                text::push_number(&mut out, current.as_repr() as u64);
                text::push_words(&mut out, " seq: ");
                text::push_number(&mut out, seq.as_repr() as u64);
                out
            },
            SequencerEvent::TimeContextMismatch { current, seq } => {
                let mut out: Vec<u8> = text::begin("Sequence file ");
                text::push_name(&mut out, name);
                text::push_words(&mut out, ": Current time context doesn't match sequence context: base: ");
                text::push_number(&mut out, *current as u64);
                text::push_words(&mut out, " seq: ");
                text::push_number(&mut out, *seq as u64);
                out
            },
            SequencerEvent::PortSequenceStarted => {
                let mut out: Vec<u8> = text::begin("Local request for sequence started: ");
                text::push_name(&mut out, name);
                out
            },
            SequencerEvent::UnexpectedCompletion { op_code } => {
                let mut out: Vec<u8> = text::begin("Command complete status received while no sequences active. Opcode: ");
                text::push_number(&mut out, *op_code as u64);
                out
            },
            SequencerEvent::ModeSwitched { mode } => {
                let mut out: Vec<u8> = text::begin("Sequencer switched to ");
                text::push_words(&mut out, mode.label());
                text::push_words(&mut out, " step mode");
                out
            },
            SequencerEvent::NoSequenceActive => text::begin("No sequence active."),
            SequencerEvent::SequenceValid => {
                let mut out: Vec<u8> = text::begin("Sequence is valid: ");
                text::push_name(&mut out, name);
                out
            },
            SequencerEvent::SequenceTimeout { command } => {
                let mut out: Vec<u8> = text::begin("Sequence ");
                text::push_name(&mut out, name);
                text::push_words(&mut out, " timed out on command ");
                text::push_number(&mut out, *command as u64);
                out
            },
            SequencerEvent::CmdStepped { command } => {
                let mut out: Vec<u8> = text::begin("Sequence ");
                text::push_name(&mut out, name);
                text::push_words(&mut out, " command ");
                text::push_number(&mut out, *command as u64);
                text::push_words(&mut out, " stepped");
                out
            },
            SequencerEvent::CmdStarted => {
                let mut out: Vec<u8> = text::begin("Sequence started: ");
                text::push_name(&mut out, name);
                out
            },
            SequencerEvent::JoinWaiting { record_number, op_code } => {
                let mut out: Vec<u8> = text::begin("Start waiting for sequence file ");
                text::push_name(&mut out, name);
                text::push_words(&mut out, ": Command ");
                text::push_number(&mut out, *record_number as u64);
                text::push_words(&mut out, " (opcode ");
                text::push_number(&mut out, *op_code as u64);
                text::push_words(&mut out, ") to complete");
                out
            },
            SequencerEvent::JoinWaitingNotComplete => {
                text::begin("Still waiting for sequence file to complete")
            },
            SequencerEvent::NoRecords => {
                let mut out: Vec<u8> = text::begin("Sequence file has no records. Ignoring: ");
                text::push_name(&mut out, name);
                out
            },
        }
    }
}

/// A port call that the sequencer makes. `B` holds bytes: a `Vec<u8>` in memory, a
/// `Seq<u8>` in contracts.
#[derive(Debug)]
pub enum Action<B = Vec<u8>> {
    /// Report an event; `name` is the name of the sequence file, or empty where the
    /// event carries none.
    Event { event: SequencerEvent, name: B },
    /// Report a counter on a telemetry channel.
    Counter { channel: u32, value: u32 },
    /// Report the name of the running sequence.
    CurrentSequence { name: B },
    /// Register a command.
    CmdReg { op_code: u32 },
    /// Answer a command.
    CmdResponse { op_code: u32, cmd_seq: u32, response: CmdResponse },
    /// Send a command of the sequence.
    ComCmd { data: B, context: u32 },
    /// Announce the start of a sequence, with arguments.
    SeqStart { file_name: B, args_size: u64, args: B },
    /// Announce the end of a sequence.
    SeqDone { op_code: u32, cmd_seq: u32, response: CmdResponse },
    /// Answer a ping.
    Ping { key: u32 },
}

impl View for Action<Vec<u8>> {
    type V = Action<Seq<u8>>;

    open spec fn view(&self) -> Action<Seq<u8>> {
        match self {
            Action::Event { event, name } => Action::Event { event: *event, name: name@ },
            Action::Counter { channel, value } => Action::Counter {
                channel: *channel,
                value: *value,
            },
            Action::CurrentSequence { name } => Action::CurrentSequence { name: name@ },
            Action::CmdReg { op_code } => Action::CmdReg { op_code: *op_code },
            Action::CmdResponse { op_code, cmd_seq, response } => Action::CmdResponse {
                op_code: *op_code,
                cmd_seq: *cmd_seq,
                response: *response,
            },
            Action::ComCmd { data, context } => Action::ComCmd { data: data@, context: *context },
            Action::SeqStart { file_name, args_size, args } => Action::SeqStart {
                file_name: file_name@,
                args_size: *args_size,
                args: args@,
            },
            Action::SeqDone { op_code, cmd_seq, response } => Action::SeqDone {
                op_code: *op_code,
                cmd_seq: *cmd_seq,
                response: *response,
            },
            Action::Ping { key } => Action::Ping { key: *key },
        }
    }
}

impl Action<Seq<u8>> {
    /// The telemetry channel and the value on the wire, where the output is telemetry.
    pub open spec fn telemetry(self) -> Option<(u32, Seq<u8>)> {
        match self {
            Action::Counter { channel, value } => Some((channel, bytes::be32(value))),
            Action::CurrentSequence { name } => Some(
                (
                    CHANID_CS_CURRENT_SEQUENCE,
                    bytes::be_string(
                        if name.len() <= FILE_NAME_STRING_SIZE {
                            name
                        } else {
                            name.take(FILE_NAME_STRING_SIZE as int)
                        },
                    ),
                ),
            ),
            _ => None,
        }
    }
}

impl Action<Vec<u8>> {
    /// The telemetry channel and the value on the wire, where the output is telemetry.
    pub fn as_telemetry(&self) -> (r: Option<(u32, Vec<u8>)>)
        ensures
            match r {
                Some((channel, value)) => self@.telemetry() == Some((channel, value@)),
                None => self@.telemetry() is None,
            },
    {
        match self {
            Action::Counter { channel, value } => {
                let mut out: Vec<u8> = Vec::new();
                bytes::push_u32(&mut out, *value);
                assert(out@ =~= bytes::be32(*value));
                Some((*channel, out))
            },
            Action::CurrentSequence { name } => {
                let mut out: Vec<u8> = Vec::new();
                let end: usize = if name.len() <= FILE_NAME_STRING_SIZE {
                    name.len()
                } else {
                    FILE_NAME_STRING_SIZE
                };
                let head: Vec<u8> = bytes::copy_range(name.as_slice(), 0, end);
                assert(name@.len() <= FILE_NAME_STRING_SIZE ==> head@ =~= name@);
                assert(head@ =~= name@.take(end as int));
                bytes::push_string(&mut out, head.as_slice());
                assert(out@ =~= bytes::be_string(head@));
                Some((CHANID_CS_CURRENT_SEQUENCE, out))
            },
            _ => None,
        }
    }
}

} // verus!
