//! The command sequencer, driven through its queue messages.
use fprime_svc::cmd_sequencer::dictionary::{
    CHANID_CS_CANCEL_COMMANDS,
    CHANID_CS_COMMANDS_EXECUTED,
    CHANID_CS_CURRENT_SEQUENCE,
    CHANID_CS_ERRORS,
    CHANID_CS_LOAD_COMMANDS,
    CHANID_CS_SEQUENCES_COMPLETED,
    EVENTID_CS_CMD_STARTED,
    EVENTID_CS_CMD_STEPPED,
    EVENTID_CS_COMMAND_COMPLETE,
    EVENTID_CS_COMMAND_ERROR,
    EVENTID_CS_FILE_CRC_FAILURE,
    EVENTID_CS_FILE_INVALID,
    EVENTID_CS_FILE_NOT_FOUND,
    EVENTID_CS_FILE_READ_ERROR,
    EVENTID_CS_FILE_SIZE_ERROR,
    EVENTID_CS_INVALID_MODE,
    EVENTID_CS_JOIN_WAITING,
    EVENTID_CS_JOIN_WAITING_NOT_COMPLETE,
    EVENTID_CS_MODE_SWITCHED,
    EVENTID_CS_NO_RECORDS,
    EVENTID_CS_NO_SEQUENCE_ACTIVE,
    EVENTID_CS_PORT_SEQUENCE_STARTED,
    EVENTID_CS_RECORD_INVALID,
    EVENTID_CS_RECORD_MISMATCH,
    EVENTID_CS_SEQUENCE_CANCELED,
    EVENTID_CS_SEQUENCE_COMPLETE,
    EVENTID_CS_SEQUENCE_LOADED,
    EVENTID_CS_SEQUENCE_TIMEOUT,
    EVENTID_CS_SEQUENCE_VALID,
    EVENTID_CS_TIME_BASE_MISMATCH,
    EVENTID_CS_TIME_CONTEXT_MISMATCH,
    EVENTID_CS_UNEXPECTED_COMPLETION,
    OPCODE_CS_AUTO,
    OPCODE_CS_CANCEL,
    OPCODE_CS_JOIN_WAIT,
    OPCODE_CS_MANUAL,
    OPCODE_CS_RUN,
    OPCODE_CS_START,
    OPCODE_CS_STEP,
    OPCODE_CS_VALIDATE,
};
use fprime_svc::cmd_sequencer::messages::{
    Message, MSG_TYPE_CMD_IN, MSG_TYPE_CMD_RESPONSE_IN, MSG_TYPE_PING_IN, MSG_TYPE_SEQ_CANCEL_IN,
    MSG_TYPE_SEQ_DISPATCH_IN, MSG_TYPE_SEQ_RUN_IN, QUEUE_MSG_SIZE,
};
use fprime_svc::cmd_sequencer::model::Inputs;
use fprime_svc::cmd_sequencer::{
    Action, BlockState, CmdSequencer, FPrimeSequence, FileImage, FileReadStage, RecordDescriptor,
    RunMode, SeqArgs, SeqArgsBuffer, SeqMode, Sequence, SequenceHeader, SequenceLoadEvent,
    SequenceRecord, StepMode, Timer, SEQUENCE_ARGUMENTS_MAX_SIZE, SEQUENCE_CRC_SIZE,
    SEQUENCE_HEADER_SIZE,
};
use fprime_svc::fw::bytes::SerializeStatus;
use fprime_svc::fw::crc32::Crc32;
use fprime_svc::fw::time::{Time, TimeBase, TimeComparison, FW_CONTEXT_DONT_CARE};
use fprime_svc::fw::types::{CmdResponse, FileStatus, LogSeverity, MsgDispatchStatus};
use std::collections::HashMap;

const ID_BASE: u32 = 0x1000_6000;
const BUFFER_BYTES: usize = 5 * 1024;

/// A settable clock.
struct Clock {
    time: Time,
}

impl Clock {
    fn set(&mut self, seconds: u32, useconds: u32) {
        self.time = Time::new(
            self.time.get_time_base(),
            self.time.get_context(),
            seconds,
            useconds,
        );
    }

    fn set_full(&mut self, base: TimeBase, context: u8, seconds: u32, useconds: u32) {
        self.time = Time::new(base, context, seconds, useconds);
    }
}

type EventRecord = (u32, LogSeverity, Vec<u8>);

/// What the sequencer has put out.
#[derive(Default)]
struct Ground {
    regs: Vec<u32>,
    responses: Vec<(u32, u32, CmdResponse)>,
    events: Vec<EventRecord>,
    tlm: Vec<(u32, Vec<u8>)>,
    pings: Vec<u32>,
    com: Vec<(Vec<u8>, u32)>,
    seq_start: Vec<(Vec<u8>, SeqArgs)>,
}

impl Ground {
    fn event_ids(&self) -> Vec<u32> {
        self.events.iter().map(|e| e.0).collect()
    }

    fn find_event(&self, id: u32) -> Option<EventRecord> {
        self.events.iter().find(|e| e.0 == id).cloned()
    }

    fn count_event(&self, id: u32) -> usize {
        self.events.iter().filter(|e| e.0 == id).count()
    }

    fn last_tlm(&self, chan: u32) -> Option<Vec<u8>> {
        self.tlm
            .iter()
            .rev()
            .find(|t| t.0 == chan)
            .map(|t| t.1.clone())
    }

    fn tlm_u32(&self, chan: u32) -> Option<u32> {
        self.last_tlm(chan).map(|bytes| {
            let mut raw = [0u8; 4];
            raw.copy_from_slice(&bytes[..4]);
            u32::from_be_bytes(raw)
        })
    }

    fn clear(&mut self) {
        *self = Ground::default();
    }
}

struct Harness {
    comp: CmdSequencer,
    ground: Ground,
    seq_done: Vec<(u32, u32, CmdResponse)>,
    clock: Clock,
    files: HashMap<Vec<u8>, FileImage>,
    queue: Vec<(i32, Vec<u8>)>,
}

fn image_of(bytes: &[u8]) -> FileImage {
    FileImage {
        open: FileStatus::OpOk,
        header: FileStatus::OpOk,
        records: FileStatus::OpOk,
        contents: bytes.to_vec(),
    }
}

fn failed_open(status: FileStatus) -> FileImage {
    FileImage {
        open: status,
        header: FileStatus::NotOpened,
        records: FileStatus::NotOpened,
        contents: Vec::new(),
    }
}

fn build_with(connect_seq_done: bool, connect_seq_start: bool) -> Harness {
    let mut comp = CmdSequencer::new(ID_BASE);
    if connect_seq_done {
        comp.connect_seq_done();
    }
    if connect_seq_start {
        comp.connect_seq_start();
    }
    comp.allocate_buffer(0, BUFFER_BYTES);
    let mut h = Harness {
        comp,
        ground: Ground::default(),
        seq_done: Vec::new(),
        clock: Clock {
            time: Time::new(TimeBase::TbWorkstationTime, 0, 1000, 0),
        },
        files: HashMap::new(),
        queue: Vec::new(),
    };
    let mut out = Vec::new();
    h.comp.reg_commands(&mut out);
    h.collect(out);
    h
}

fn build() -> Harness {
    build_with(true, true)
}

impl Harness {
    fn write_file(&mut self, name: &str, bytes: &[u8]) -> String {
        let path = format!("/tmp/seq/{name}");
        self.files.insert(path.as_bytes().to_vec(), image_of(bytes));
        path
    }

    fn make_directory(&mut self, name: &str) -> String {
        let path = format!("/tmp/seq/{name}");
        self.files
            .insert(path.as_bytes().to_vec(), failed_open(FileStatus::OtherError));
        path
    }

    fn read_file(&self, name: &[u8]) -> FileImage {
        match self.files.get(name) {
            Some(image) => FileImage {
                open: image.open,
                header: image.header,
                records: image.records,
                contents: image.contents.clone(),
            },
            None => failed_open(FileStatus::DoesntExist),
        }
    }

    fn collect(&mut self, out: Vec<Action>) {
        for action in out {
            if let Some(tlm) = action.as_telemetry() {
                self.ground.tlm.push(tlm);
                continue;
            }
            match action {
                Action::Event { event, name } => {
                    self.ground
                        .events
                        .push((event.id(), event.severity(), event.args(&name)));
                }
                Action::CmdReg { op_code } => self.ground.regs.push(op_code),
                Action::CmdResponse {
                    op_code,
                    cmd_seq,
                    response,
                } => self.ground.responses.push((op_code, cmd_seq, response)),
                Action::ComCmd { data, context } => self.ground.com.push((data, context)),
                Action::SeqStart {
                    file_name,
                    args_size,
                    args,
                } => {
                    let mut raw = [0u8; 255];
                    raw.copy_from_slice(&args);
                    self.ground.seq_start.push((
                        file_name,
                        SeqArgs {
                            size: args_size,
                            buffer: SeqArgsBuffer(raw),
                        },
                    ));
                }
                Action::SeqDone {
                    op_code,
                    cmd_seq,
                    response,
                } => self.seq_done.push((op_code, cmd_seq, response)),
                Action::Ping { key } => self.ground.pings.push(key),
                other => panic!("unexpected output {other:?}"),
            }
        }
    }

    fn post(&mut self, message: Message) {
        let bytes = message.encode(0);
        assert!(bytes.len() <= QUEUE_MSG_SIZE);
        let msg_type = i32::from_be_bytes([bytes[0], bytes[1], bytes[2], bytes[3]]);
        self.queue.push((msg_type, bytes[4..].to_vec()));
    }

    fn drain(&mut self) {
        let queue: Vec<(i32, Vec<u8>)> = self.queue.drain(..).collect();
        for (msg_type, message) in queue {
            let file = match self.comp.message_file(msg_type, &message) {
                Some(name) => self.read_file(&name),
                None => failed_open(FileStatus::NotOpened),
            };
            let inputs = Inputs {
                file,
                now: self.clock.time,
                later: self.clock.time,
            };
            let decoded = Message::decode(msg_type, &message).unwrap();
            assert!(self.comp.takes_message(&decoded, &inputs));
            let mut out = Vec::new();
            let status = self
                .comp
                .dispatch_message(msg_type, &message, &inputs, &mut out);
            assert_eq!(status, MsgDispatchStatus::OK);
            self.collect(out);
        }
    }

    fn post_command(&mut self, op_code: u32, cmd_seq: u32, args: &[u8]) {
        self.post(Message::Cmd { op_code, cmd_seq, args: args.to_vec() });
    }

    fn command(&mut self, opcode_offset: u32, cmd_seq: u32, args: &[u8]) {
        self.post_command(ID_BASE + opcode_offset, cmd_seq, args);
        self.drain();
    }

    fn cmd_response_in(&mut self, op_code: u32, cmd_seq: u32, response: CmdResponse) {
        self.post(Message::CmdResponse { op_code, cmd_seq, response });
        self.drain();
    }

    fn sched_in(&mut self, context: u32) {
        self.post(Message::Sched { context });
        self.drain();
    }

    fn ping_in(&mut self, key: u32) {
        self.post(Message::Ping { key });
        self.drain();
    }

    fn post_seq_run(&mut self, filename: &str, args: &SeqArgs) {
        self.post(Message::SeqRun {
            name: filename.as_bytes().to_vec(),
            args: args.serialize(),
        });
    }

    fn seq_run_in(&mut self, filename: &str) {
        self.post_seq_run(filename, &SeqArgs::default());
        self.drain();
    }

    fn seq_dispatch_in(&mut self, filename: &str) {
        self.post(Message::SeqDispatch { name: filename.as_bytes().to_vec() });
        self.drain();
    }

    fn seq_cancel_in(&mut self) {
        self.post(Message::SeqCancel);
        self.drain();
    }

    fn load_sequence(&mut self, path: &str) {
        let file = self.read_file(path.as_bytes());
        let now = self.clock.time;
        assert!(self.comp.accepts_tags(&file, &now));
        let mut out = Vec::new();
        self.comp
            .load_sequence(path.as_bytes(), &file, &now, &mut out);
        self.collect(out);
    }

    fn responses(&self) -> Vec<(u32, u32, CmdResponse)> {
        self.ground.responses.clone()
    }

    fn com_packets(&self) -> Vec<Vec<u8>> {
        self.ground.com.iter().map(|c| c.0.clone()).collect()
    }
}

/// The opcode as events carry it.
fn event_opcode(opcode: u32) -> u32 {
    opcode
}

fn command_packet(opcode: u32, args: &[u8]) -> Vec<u8> {
    let mut out = Vec::new();
    out.extend_from_slice(&0u16.to_be_bytes());
    out.extend_from_slice(&opcode.to_be_bytes());
    out.extend_from_slice(args);
    out
}

fn command_record(descriptor: u8, seconds: u32, useconds: u32, command: &[u8]) -> Vec<u8> {
    let mut out = Vec::new();
    out.push(descriptor);
    out.extend_from_slice(&seconds.to_be_bytes());
    out.extend_from_slice(&useconds.to_be_bytes());
    out.extend_from_slice(&(command.len() as u32).to_be_bytes());
    out.extend_from_slice(command);
    out
}

fn eos_record() -> Vec<u8> {
    vec![RecordDescriptor::EndOfSequence as u8]
}

fn sequence_file(num_records: u32, time_base: u16, time_context: u8, records: &[u8]) -> Vec<u8> {
    let mut out = Vec::new();
    let file_size = (records.len() + SEQUENCE_CRC_SIZE) as u32;
    out.extend_from_slice(&file_size.to_be_bytes());
    out.extend_from_slice(&num_records.to_be_bytes());
    out.extend_from_slice(&time_base.to_be_bytes());
    out.push(time_context);
    out.extend_from_slice(records);
    let crc = Crc32::hash_u32(&out);
    out.extend_from_slice(&crc.to_be_bytes());
    out
}

fn simple_sequence(opcode: u32) -> Vec<u8> {
    let mut records = command_record(
        RecordDescriptor::Relative as u8,
        0,
        0,
        &command_packet(opcode, &[]),
    );
    records.extend_from_slice(&eos_record());
    sequence_file(2, TimeBase::TbWorkstationTime.as_repr(), 0, &records)
}

#[test]
fn sequence_file_header_is_eleven_big_endian_bytes() {
    let records = eos_record();
    let file = sequence_file(1, TimeBase::TbScTime.as_repr(), 0x07, &records);
    assert_eq!(&file[0..4], &[0x00, 0x00, 0x00, 0x05]);
    assert_eq!(&file[4..8], &[0x00, 0x00, 0x00, 0x01]);
    assert_eq!(&file[8..10], &[0x00, 0x03]);
    assert_eq!(file[10], 0x07);
    assert_eq!(file[11], 0x02);
    assert_eq!(file.len(), SEQUENCE_HEADER_SIZE + 5);
}

#[test]
fn command_record_layout_is_descriptor_time_size_packet() {
    let packet = command_packet(0x0000_0100, &[0xAA, 0xBB]);
    assert_eq!(packet, vec![0x00, 0x00, 0x00, 0x00, 0x01, 0x00, 0xAA, 0xBB]);
    let record = command_record(RecordDescriptor::Absolute as u8, 0x1234, 0x5678, &packet);
    assert_eq!(
        record,
        vec![
            0x00,
            0x00, 0x00, 0x12, 0x34,
            0x00, 0x00, 0x56, 0x78,
            0x00, 0x00, 0x00, 0x08,
            0x00, 0x00, 0x00, 0x00, 0x01, 0x00, 0xAA, 0xBB,
        ]
    );
    assert_eq!(record.len(), 13 + packet.len());
}

#[test]
fn crc_covers_header_and_records_but_not_the_crc_field() {
    let records = eos_record();
    let file = sequence_file(1, TimeBase::TbWorkstationTime.as_repr(), 0, &records);
    let data_len = file.len() - SEQUENCE_CRC_SIZE;
    let expected = Crc32::hash_u32(&file[..data_len]);
    let mut raw = [0u8; 4];
    raw.copy_from_slice(&file[data_len..]);
    assert_eq!(u32::from_be_bytes(raw), expected);
    assert_ne!(Crc32::hash_u32(&file[..SEQUENCE_HEADER_SIZE]), expected);
}

#[test]
fn file_size_counts_the_trailing_crc() {
    let mut records = command_record(
        RecordDescriptor::Relative as u8,
        0,
        0,
        &command_packet(0x2A, &[]),
    );
    records.extend_from_slice(&eos_record());
    let file = sequence_file(2, TimeBase::TbWorkstationTime.as_repr(), 0, &records);
    let mut raw = [0u8; 4];
    raw.copy_from_slice(&file[0..4]);
    let file_size = u32::from_be_bytes(raw) as usize;
    assert_eq!(file_size, records.len() + 4);
    assert_eq!(file.len(), SEQUENCE_HEADER_SIZE + file_size);
}

#[test]
fn timer_cleared_is_never_expired() {
    let timer = Timer::new();
    assert!(!timer.is_expired_at(&Time::new(TimeBase::TbNone, 0, 100, 0)));
}

#[test]
fn timer_expires_on_equal_and_later_times_only() {
    let mut timer = Timer::new();
    timer.set(Time::new(TimeBase::TbNone, 0, 100, 0));
    assert!(!timer.is_expired_at(&Time::new(TimeBase::TbNone, 0, 99, 999_999)));
    assert!(timer.is_expired_at(&Time::new(TimeBase::TbNone, 0, 100, 0)));
    assert!(timer.is_expired_at(&Time::new(TimeBase::TbNone, 0, 100, 1)));
    timer.clear();
    assert!(!timer.is_expired_at(&Time::new(TimeBase::TbNone, 0, 100, 0)));
}

#[test]
fn timer_treats_incomparable_times_as_expired() {
    let mut timer = Timer::new();
    timer.set(Time::new(TimeBase::TbScTime, 0, 10_000, 0));
    let now = Time::new(TimeBase::TbWorkstationTime, 0, 1, 0);
    assert_eq!(
        Time::compare(&timer.expiration_time(), &now),
        TimeComparison::Incomparable
    );
    assert!(timer.is_expired_at(&now));
}

#[test]
fn validate_accepts_a_well_formed_sequence() {
    let mut h = build();
    let path = h.write_file("s.bin", &simple_sequence(0x42));
    h.command(OPCODE_CS_VALIDATE, 7, &validate_args(&path));
    assert_eq!(
        h.responses(),
        vec![(
            ID_BASE + OPCODE_CS_VALIDATE,
            7,
            CmdResponse::OK
        )]
    );
    let ids = h.ground.event_ids();
    assert!(ids.contains(&EVENTID_CS_SEQUENCE_LOADED));
    assert!(ids.contains(&EVENTID_CS_SEQUENCE_VALID));
    assert_eq!(
        h.ground.tlm_u32(CHANID_CS_LOAD_COMMANDS),
        Some(1)
    );
    h.ground.clear();
    h.command(OPCODE_CS_START, 8, &[]);
    assert_eq!(
        h.responses(),
        vec![(
            ID_BASE + OPCODE_CS_START,
            8,
            CmdResponse::ExecutionError
        )]
    );
    assert!(
        h.ground
            .event_ids()
            .contains(&EVENTID_CS_NO_SEQUENCE_ACTIVE)
    );
}

fn validate_args(path: &str) -> Vec<u8> {
    let mut out = Vec::new();
    out.extend_from_slice(&(path.len() as u16).to_be_bytes());
    out.extend_from_slice(path.as_bytes());
    out
}

fn run_args(path: &str, block: BlockState) -> Vec<u8> {
    let mut out = validate_args(path);
    out.push(block.as_repr());
    out
}

#[test]
fn load_reports_file_not_found() {
    let mut h = build();
    h.command(
        OPCODE_CS_VALIDATE,
        1,
        &validate_args("/x/none"),
    );
    assert_eq!(
        h.responses(),
        vec![(
            ID_BASE + OPCODE_CS_VALIDATE,
            1,
            CmdResponse::ExecutionError
        )]
    );
    assert!(
        h.ground
            .find_event(EVENTID_CS_FILE_NOT_FOUND)
            .is_some()
    );
    assert_eq!(h.ground.tlm_u32(CHANID_CS_ERRORS), Some(1));
}

#[test]
fn load_reports_crc_failure_with_stored_and_computed() {
    let mut h = build();
    let mut file = simple_sequence(0x42);
    let last = file.len() - 1;
    file[last] ^= 0xFF;
    let path = h.write_file("s.bin", &file);
    h.command(OPCODE_CS_VALIDATE, 2, &validate_args(&path));
    let event = h
        .ground
        .find_event(EVENTID_CS_FILE_CRC_FAILURE)
        .expect("CS_FileCrcFailure");
    assert_eq!(event.1, LogSeverity::WarningHi);
    let name_len = u16::from_be_bytes([event.2[0], event.2[1]]) as usize;
    let tail = &event.2[2 + name_len..];
    let stored = u32::from_be_bytes([tail[0], tail[1], tail[2], tail[3]]);
    let computed = u32::from_be_bytes([tail[4], tail[5], tail[6], tail[7]]);
    let data_len = file.len() - SEQUENCE_CRC_SIZE;
    assert_eq!(computed, Crc32::hash_u32(&file[..data_len]));
    assert_ne!(stored, computed);
    assert_eq!(h.ground.tlm_u32(CHANID_CS_ERRORS), Some(1));
}

#[test]
fn load_reports_bad_record_descriptor() {
    let mut h = build();
    let records = vec![0x03u8];
    let file = sequence_file(1, TimeBase::TbWorkstationTime.as_repr(), 0, &records);
    let path = h.write_file("s.bin", &file);
    h.command(OPCODE_CS_VALIDATE, 3, &validate_args(&path));
    let event = h
        .ground
        .find_event(EVENTID_CS_RECORD_INVALID)
        .expect("CS_RecordInvalid");
    let name_len = u16::from_be_bytes([event.2[0], event.2[1]]) as usize;
    let tail = &event.2[2 + name_len..];
    assert_eq!(
        u32::from_be_bytes([tail[0], tail[1], tail[2], tail[3]]),
        0,
        "record number"
    );
    assert_eq!(
        i32::from_be_bytes([tail[4], tail[5], tail[6], tail[7]]),
        SerializeStatus::DeserFormatError.as_repr() as i32
    );
}

#[test]
fn load_reports_record_size_beyond_remaining_data() {
    let mut h = build();
    let mut records = vec![RecordDescriptor::Absolute as u8];
    records.extend_from_slice(&0u32.to_be_bytes());
    records.extend_from_slice(&0u32.to_be_bytes());
    records.extend_from_slice(&64u32.to_be_bytes());
    records.extend_from_slice(&[0u8; 8]);
    let file = sequence_file(1, TimeBase::TbWorkstationTime.as_repr(), 0, &records);
    let path = h.write_file("s.bin", &file);
    h.command(OPCODE_CS_VALIDATE, 4, &validate_args(&path));
    let event = h
        .ground
        .find_event(EVENTID_CS_RECORD_INVALID)
        .expect("CS_RecordInvalid");
    let name_len = u16::from_be_bytes([event.2[0], event.2[1]]) as usize;
    let tail = &event.2[2 + name_len..];
    assert_eq!(
        i32::from_be_bytes([tail[4], tail[5], tail[6], tail[7]]),
        SerializeStatus::DeserSizeMismatch.as_repr() as i32
    );
}

#[test]
fn record_size_check_is_over_strict_by_two_bytes() {
    let mut h = build();
    for (size, expect_ok) in [(510usize, true), (511usize, false)] {
        h.ground.clear();
        let mut packet = command_packet(0x55, &[]);
        packet.resize(size, 0x5A);
        let mut records = command_record(RecordDescriptor::Relative as u8, 0, 0, &packet);
        records.extend_from_slice(&eos_record());
        let file = sequence_file(2, TimeBase::TbWorkstationTime.as_repr(), 0, &records);
        let path = h.write_file(&format!("r{size}.bin"), &file);
        h.command(OPCODE_CS_VALIDATE, 5, &validate_args(&path));
        let valid = h
            .ground
            .find_event(EVENTID_CS_SEQUENCE_VALID)
            .is_some();
        assert_eq!(valid, expect_ok, "record size {size}");
    }
}

#[test]
fn load_reports_no_records_when_header_declares_zero() {
    let mut h = build();
    let file = sequence_file(0, TimeBase::TbWorkstationTime.as_repr(), 0, &eos_record());
    let path = h.write_file("s.bin", &file);
    h.command(OPCODE_CS_VALIDATE, 6, &validate_args(&path));
    let event = h
        .ground
        .find_event(EVENTID_CS_NO_RECORDS)
        .expect("CS_NoRecords");
    assert_eq!(event.1, LogSeverity::WarningLo);
    assert_eq!(h.ground.tlm_u32(CHANID_CS_ERRORS), Some(1));
}

#[test]
fn record_mismatch_does_not_bump_the_error_counter() {
    let mut h = build();
    let mut records = eos_record();
    records.extend_from_slice(&eos_record());
    let file = sequence_file(1, TimeBase::TbWorkstationTime.as_repr(), 0, &records);
    let path = h.write_file("s.bin", &file);
    h.command(OPCODE_CS_VALIDATE, 7, &validate_args(&path));
    let event = h
        .ground
        .find_event(EVENTID_CS_RECORD_MISMATCH)
        .expect("CS_RecordMismatch");
    let name_len = u16::from_be_bytes([event.2[0], event.2[1]]) as usize;
    let tail = &event.2[2 + name_len..];
    assert_eq!(u32::from_be_bytes([tail[0], tail[1], tail[2], tail[3]]), 1);
    assert_eq!(u32::from_be_bytes([tail[4], tail[5], tail[6], tail[7]]), 1);
    assert_eq!(h.ground.tlm_u32(CHANID_CS_ERRORS), None);
}

#[test]
fn load_rejects_a_mismatched_time_base() {
    let mut h = build();
    let mut records = command_record(
        RecordDescriptor::Relative as u8,
        0,
        0,
        &command_packet(1, &[]),
    );
    records.extend_from_slice(&eos_record());
    let file = sequence_file(2, TimeBase::TbScTime.as_repr(), 0, &records);
    let path = h.write_file("s.bin", &file);
    h.command(OPCODE_CS_VALIDATE, 8, &validate_args(&path));
    let event = h
        .ground
        .find_event(EVENTID_CS_TIME_BASE_MISMATCH)
        .expect("CS_TimeBaseMismatch");
    let name_len = u16::from_be_bytes([event.2[0], event.2[1]]) as usize;
    let tail = &event.2[2 + name_len..];
    assert_eq!(
        u16::from_be_bytes([tail[0], tail[1]]),
        TimeBase::TbWorkstationTime.as_repr()
    );
    assert_eq!(
        u16::from_be_bytes([tail[2], tail[3]]),
        TimeBase::TbScTime.as_repr()
    );
}

#[test]
fn load_rejects_a_mismatched_time_context() {
    let mut h = build();
    h.clock.set_full(TimeBase::TbWorkstationTime, 2, 1000, 0);
    let mut records = command_record(
        RecordDescriptor::Relative as u8,
        0,
        0,
        &command_packet(1, &[]),
    );
    records.extend_from_slice(&eos_record());
    let file = sequence_file(2, TimeBase::TbWorkstationTime.as_repr(), 9, &records);
    let path = h.write_file("s.bin", &file);
    h.command(OPCODE_CS_VALIDATE, 9, &validate_args(&path));
    let event = h
        .ground
        .find_event(EVENTID_CS_TIME_CONTEXT_MISMATCH)
        .expect("CS_TimeContextMismatch");
    let name_len = u16::from_be_bytes([event.2[0], event.2[1]]) as usize;
    let tail = &event.2[2 + name_len..];
    assert_eq!(tail[0], 2, "current context");
    assert_eq!(tail[1], 9, "sequence context");
}

#[test]
fn dont_care_time_base_and_context_are_accepted_and_canonicalized() {
    let mut h = build();
    h.clock.set_full(TimeBase::TbWorkstationTime, 3, 1000, 0);
    let mut records = command_record(
        RecordDescriptor::Absolute as u8,
        1000,
        0,
        &command_packet(0x77, &[]),
    );
    records.extend_from_slice(&eos_record());
    let file = sequence_file(
        2,
        TimeBase::TbDontCare.as_repr(),
        FW_CONTEXT_DONT_CARE,
        &records,
    );
    let path = h.write_file("s.bin", &file);
    h.command(
        OPCODE_CS_RUN,
        10,
        &run_args(&path, BlockState::NoBlock),
    );
    assert_eq!(h.com_packets().len(), 1);
    let state = &h.comp;
    assert_eq!(
        state.sequence().header().time_base,
        TimeBase::TbWorkstationTime
    );
    assert_eq!(state.sequence().header().time_context, 3);
    assert_eq!(
        state.record().time_tag.get_time_base(),
        TimeBase::TbWorkstationTime
    );
    assert_eq!(state.record().time_tag.get_context(), 3);
}

#[test]
fn load_reports_file_size_error_when_larger_than_the_buffer() {
    let mut h = build_with(true, true);
    h.comp.allocate_buffer(0, 64);
    let mut records = Vec::new();
    for _ in 0..8 {
        records.extend_from_slice(&command_record(
            RecordDescriptor::Relative as u8,
            0,
            0,
            &command_packet(1, &[0u8; 8]),
        ));
    }
    let file = sequence_file(8, TimeBase::TbWorkstationTime.as_repr(), 0, &records);
    let path = h.write_file("s.bin", &file);
    h.command(OPCODE_CS_VALIDATE, 11, &validate_args(&path));
    let event = h
        .ground
        .find_event(EVENTID_CS_FILE_SIZE_ERROR)
        .expect("CS_FileSizeError");
    let name_len = u16::from_be_bytes([event.2[0], event.2[1]]) as usize;
    let tail = &event.2[2 + name_len..];
    assert_eq!(
        u32::from_be_bytes([tail[0], tail[1], tail[2], tail[3]]) as usize,
        records.len() + 4
    );
}

#[test]
fn load_reports_short_header_and_short_record_block() {
    let mut h = build();

    let path = h.write_file("short.bin", &[0u8; 5]);
    h.command(OPCODE_CS_VALIDATE, 12, &validate_args(&path));
    let event = h
        .ground
        .find_event(EVENTID_CS_FILE_INVALID)
        .expect("CS_FileInvalid");
    let name_len = u16::from_be_bytes([event.2[0], event.2[1]]) as usize;
    let tail = &event.2[2 + name_len..];
    assert_eq!(tail[0], FileReadStage::ReadHeaderSize.as_repr());
    assert_eq!(i32::from_be_bytes([tail[1], tail[2], tail[3], tail[4]]), 5);

    h.ground.clear();
    let mut file = simple_sequence(0x42);
    file.truncate(file.len() - 3);
    let path = h.write_file("trunc.bin", &file);
    h.command(OPCODE_CS_VALIDATE, 13, &validate_args(&path));
    let event = h
        .ground
        .find_event(EVENTID_CS_FILE_INVALID)
        .expect("CS_FileInvalid");
    let name_len = u16::from_be_bytes([event.2[0], event.2[1]]) as usize;
    let tail = &event.2[2 + name_len..];
    assert_eq!(tail[0], FileReadStage::ReadSeqDataSize.as_repr());
}

#[test]
fn load_reports_invalid_time_base_value() {
    let mut h = build();
    let mut file = sequence_file(1, TimeBase::TbWorkstationTime.as_repr(), 0, &eos_record());
    file[8] = 0x00;
    file[9] = 0xAA;
    let data_len = file.len() - SEQUENCE_CRC_SIZE;
    let crc = Crc32::hash_u32(&file[..data_len]);
    file[data_len..].copy_from_slice(&crc.to_be_bytes());
    let path = h.write_file("s.bin", &file);
    h.command(OPCODE_CS_VALIDATE, 14, &validate_args(&path));
    let event = h
        .ground
        .find_event(EVENTID_CS_FILE_INVALID)
        .expect("CS_FileInvalid");
    let name_len = u16::from_be_bytes([event.2[0], event.2[1]]) as usize;
    let tail = &event.2[2 + name_len..];
    assert_eq!(tail[0], FileReadStage::DeserTimeBase.as_repr());
}

#[test]
fn crc_field_shorter_than_four_bytes_is_read_seq_crc() {
    let mut h = build();
    let mut file = Vec::new();
    file.extend_from_slice(&2u32.to_be_bytes());
    file.extend_from_slice(&1u32.to_be_bytes());
    file.extend_from_slice(&TimeBase::TbWorkstationTime.as_repr().to_be_bytes());
    file.push(0);
    file.extend_from_slice(&[0xAA, 0xBB]);
    let path = h.write_file("s.bin", &file);
    h.command(OPCODE_CS_VALIDATE, 15, &validate_args(&path));
    let event = h
        .ground
        .find_event(EVENTID_CS_FILE_INVALID)
        .expect("CS_FileInvalid");
    let name_len = u16::from_be_bytes([event.2[0], event.2[1]]) as usize;
    let tail = &event.2[2 + name_len..];
    assert_eq!(tail[0], FileReadStage::ReadSeqCrc.as_repr());
    assert_eq!(i32::from_be_bytes([tail[1], tail[2], tail[3], tail[4]]), 2);
}

#[test]
fn trailing_bytes_beyond_the_declared_file_size_are_ignored() {
    let mut h = build();
    let mut file = simple_sequence(0x42);
    file.extend_from_slice(&[0xDE, 0xAD, 0xBE, 0xEF]);
    let path = h.write_file("s.bin", &file);
    h.command(OPCODE_CS_VALIDATE, 16, &validate_args(&path));
    assert_eq!(
        h.responses(),
        vec![(
            ID_BASE + OPCODE_CS_VALIDATE,
            16,
            CmdResponse::OK
        )]
    );
}

#[test]
fn auto_run_emits_the_exact_command_packet_and_completes() {
    let mut h = build();
    let packet = command_packet(0x0000_0123, &[0x01, 0x02, 0x03, 0x04]);
    let mut records = command_record(RecordDescriptor::Relative as u8, 0, 0, &packet);
    records.extend_from_slice(&eos_record());
    let file = sequence_file(2, TimeBase::TbWorkstationTime.as_repr(), 0, &records);
    let path = h.write_file("s.bin", &file);

    h.command(
        OPCODE_CS_RUN,
        21,
        &run_args(&path, BlockState::NoBlock),
    );

    assert_eq!(
        h.responses(),
        vec![(ID_BASE + OPCODE_CS_RUN, 21, CmdResponse::OK)]
    );
    assert_eq!(h.com_packets(), vec![packet.clone()]);
    assert_eq!(h.ground.com[0].1, 0, "context");
    let starts = h.ground.seq_start.clone();
    assert_eq!(starts.len(), 1);
    assert_eq!(starts[0].0, path.as_bytes());
    assert_eq!(starts[0].1, SeqArgs::default());
    assert_eq!(starts[0].1.size, 0);
    assert_eq!(h.comp.run_mode(), RunMode::Running);

    h.ground.clear();
    h.cmd_response_in(0x0000_0123, 0, CmdResponse::OK);
    let ids = h.ground.event_ids();
    assert!(ids.contains(&EVENTID_CS_COMMAND_COMPLETE));
    assert!(ids.contains(&EVENTID_CS_SEQUENCE_COMPLETE));
    assert_eq!(
        h.ground.tlm_u32(CHANID_CS_COMMANDS_EXECUTED),
        Some(1)
    );
    assert_eq!(
        h.ground
            .tlm_u32(CHANID_CS_SEQUENCES_COMPLETED),
        Some(1)
    );
    assert_eq!(
        h.seq_done,
        vec![(0, 0, CmdResponse::OK)]
    );
    assert_eq!(h.comp.run_mode(), RunMode::Stopped);
    let current = h
        .ground
        .last_tlm(CHANID_CS_CURRENT_SEQUENCE)
        .unwrap();
    assert_eq!(&current[2..], b"<no seq>");
}

#[test]
fn auto_run_walks_two_commands_in_order() {
    let mut h = build();
    let first = command_packet(0x11, &[0xAA]);
    let second = command_packet(0x22, &[0xBB, 0xCC]);
    let mut records = command_record(RecordDescriptor::Relative as u8, 0, 0, &first);
    records.extend_from_slice(&command_record(
        RecordDescriptor::Relative as u8,
        0,
        0,
        &second,
    ));
    records.extend_from_slice(&eos_record());
    let file = sequence_file(3, TimeBase::TbWorkstationTime.as_repr(), 0, &records);
    let path = h.write_file("s.bin", &file);

    h.command(
        OPCODE_CS_RUN,
        22,
        &run_args(&path, BlockState::NoBlock),
    );
    assert_eq!(h.com_packets(), vec![first.clone()]);
    h.cmd_response_in(0x11, 0, CmdResponse::OK);
    assert_eq!(h.com_packets(), vec![first, second]);
    h.cmd_response_in(0x22, 0, CmdResponse::OK);
    assert_eq!(
        h.ground.tlm_u32(CHANID_CS_COMMANDS_EXECUTED),
        Some(2)
    );
    assert_eq!(h.comp.run_mode(), RunMode::Stopped);
}

#[test]
fn sequence_without_end_record_completes_on_the_last_response() {
    let mut h = build();
    let packet = command_packet(0x33, &[]);
    let records = command_record(RecordDescriptor::Relative as u8, 0, 0, &packet);
    let file = sequence_file(1, TimeBase::TbWorkstationTime.as_repr(), 0, &records);
    let path = h.write_file("s.bin", &file);
    h.command(
        OPCODE_CS_RUN,
        23,
        &run_args(&path, BlockState::NoBlock),
    );
    h.ground.clear();
    h.cmd_response_in(0x33, 0, CmdResponse::OK);
    assert!(
        h.ground
            .event_ids()
            .contains(&EVENTID_CS_SEQUENCE_COMPLETE)
    );
    assert_eq!(h.comp.run_mode(), RunMode::Stopped);
}

#[test]
fn block_mode_defers_the_command_response_until_completion() {
    let mut h = build();
    let path = h.write_file("s.bin", &simple_sequence(0x42));
    h.command(
        OPCODE_CS_RUN,
        24,
        &run_args(&path, BlockState::Block),
    );
    assert!(h.responses().is_empty(), "BLOCK defers the response");
    h.cmd_response_in(0x42, 0, CmdResponse::OK);
    assert_eq!(
        h.responses(),
        vec![(ID_BASE + OPCODE_CS_RUN, 24, CmdResponse::OK)]
    );
}

#[test]
fn block_mode_answers_exactly_once_for_an_immediately_complete_sequence() {
    let mut h = build();
    let file = sequence_file(1, TimeBase::TbWorkstationTime.as_repr(), 0, &eos_record());
    let path = h.write_file("eos.bin", &file);
    h.command(
        OPCODE_CS_RUN,
        25,
        &run_args(&path, BlockState::Block),
    );
    assert_eq!(
        h.responses(),
        vec![(ID_BASE + OPCODE_CS_RUN, 25, CmdResponse::OK)]
    );
}

#[test]
fn command_error_cancels_the_sequence() {
    let mut h = build();
    let path = h.write_file("s.bin", &simple_sequence(0x42));
    h.command(
        OPCODE_CS_RUN,
        26,
        &run_args(&path, BlockState::Block),
    );
    h.ground.clear();
    h.cmd_response_in(0x42, 0, CmdResponse::ExecutionError);
    let event = h
        .ground
        .find_event(EVENTID_CS_COMMAND_ERROR)
        .expect("CS_CommandError");
    let name_len = u16::from_be_bytes([event.2[0], event.2[1]]) as usize;
    let tail = &event.2[2 + name_len..];
    assert_eq!(u32::from_be_bytes([tail[0], tail[1], tail[2], tail[3]]), 0);
    assert_eq!(
        u32::from_be_bytes([tail[4], tail[5], tail[6], tail[7]]),
        0x42
    );
    assert_eq!(
        u32::from_be_bytes([tail[8], tail[9], tail[10], tail[11]]),
        CmdResponse::ExecutionError.as_repr() as u32
    );
    assert_eq!(
        h.seq_done,
        vec![(0, 0, CmdResponse::ExecutionError)]
    );
    assert_eq!(
        h.responses(),
        vec![(
            ID_BASE + OPCODE_CS_RUN,
            26,
            CmdResponse::ExecutionError
        )]
    );
    assert_eq!(h.comp.run_mode(), RunMode::Stopped);
}

#[test]
fn command_response_while_stopped_is_unexpected_completion() {
    let mut h = build();
    h.cmd_response_in(0x99, 3, CmdResponse::OK);
    let event = h
        .ground
        .find_event(EVENTID_CS_UNEXPECTED_COMPLETION)
        .expect("CS_UnexpectedCompletion");
    assert_eq!(event.1, LogSeverity::WarningHi);
    assert_eq!(
        u32::from_be_bytes([event.2[0], event.2[1], event.2[2], event.2[3]]),
        event_opcode(0x99)
    );
}

#[test]
fn absolute_record_in_the_future_waits_for_sched_in() {
    let mut h = build();
    let packet = command_packet(0x44, &[]);
    let mut records = command_record(RecordDescriptor::Absolute as u8, 2000, 0, &packet);
    records.extend_from_slice(&eos_record());
    let file = sequence_file(2, TimeBase::TbWorkstationTime.as_repr(), 0, &records);
    let path = h.write_file("s.bin", &file);
    h.command(
        OPCODE_CS_RUN,
        27,
        &run_args(&path, BlockState::NoBlock),
    );
    assert!(h.com_packets().is_empty(), "tag is in the future");
    assert!(h.comp.cmd_timer().is_armed());

    h.clock.set(1999, 999_999);
    h.sched_in(0);
    assert!(h.com_packets().is_empty());

    h.clock.set(2000, 0);
    h.sched_in(0);
    assert_eq!(h.com_packets(), vec![packet]);
    assert!(!h.comp.cmd_timer().is_armed());
}

#[test]
fn relative_record_adds_the_current_time_at_step_time() {
    let mut h = build();
    let packet = command_packet(0x45, &[]);
    let mut records = command_record(RecordDescriptor::Relative as u8, 30, 0, &packet);
    records.extend_from_slice(&eos_record());
    let file = sequence_file(2, TimeBase::TbWorkstationTime.as_repr(), 0, &records);
    let path = h.write_file("s.bin", &file);
    h.clock.set(1000, 0);
    h.command(
        OPCODE_CS_RUN,
        28,
        &run_args(&path, BlockState::NoBlock),
    );
    assert!(h.com_packets().is_empty());
    {
        let state = &h.comp;
        assert_eq!(state.cmd_timer().expiration_time().get_seconds(), 1030);
    }
    h.clock.set(1030, 0);
    h.sched_in(0);
    assert_eq!(h.com_packets(), vec![packet]);
}

#[test]
fn command_response_timeout_cancels_the_sequence() {
    let mut h = build();
    h.comp.set_timeout(5);
    let path = h.write_file("s.bin", &simple_sequence(0x46));
    h.clock.set(1000, 0);
    h.command(
        OPCODE_CS_RUN,
        29,
        &run_args(&path, BlockState::NoBlock),
    );
    assert_eq!(h.com_packets().len(), 1);
    {
        let state = &h.comp;
        assert!(state.cmd_timeout_timer().is_armed());
        assert_eq!(
            state.cmd_timeout_timer().expiration_time().get_seconds(),
            1005
        );
    }
    h.clock.set(1004, 0);
    h.sched_in(0);
    assert_eq!(h.comp.run_mode(), RunMode::Running);
    h.ground.clear();
    h.clock.set(1005, 0);
    h.sched_in(0);
    let event = h
        .ground
        .find_event(EVENTID_CS_SEQUENCE_TIMEOUT)
        .expect("CS_SequenceTimeout");
    assert_eq!(event.1, LogSeverity::WarningHi);
    assert_eq!(h.comp.run_mode(), RunMode::Stopped);
    assert_eq!(
        h.seq_done,
        vec![(0, 0, CmdResponse::ExecutionError)]
    );
}

#[test]
fn timeout_is_not_armed_when_disabled_or_in_manual_mode() {
    let mut h = build();
    let path = h.write_file("s.bin", &simple_sequence(0x47));
    h.command(
        OPCODE_CS_RUN,
        30,
        &run_args(&path, BlockState::NoBlock),
    );
    assert!(!h.comp.cmd_timeout_timer().is_armed());

    let mut h2 = build();
    h2.comp.set_timeout(5);
    h2.command(OPCODE_CS_MANUAL, 31, &[]);
    let path2 = h2.write_file("s.bin", &simple_sequence(0x48));
    h2.command(
        OPCODE_CS_RUN,
        32,
        &run_args(&path2, BlockState::NoBlock),
    );
    h2.command(OPCODE_CS_START, 33, &[]);
    assert_eq!(h2.com_packets().len(), 1);
    assert!(!h2.comp.cmd_timeout_timer().is_armed());
}

#[test]
fn due_command_dispatch_suppresses_the_timeout_check_on_the_same_tick() {
    let mut h = build();
    h.comp.set_timeout(5);
    let packet = command_packet(0x49, &[]);
    let mut records = command_record(RecordDescriptor::Absolute as u8, 2000, 0, &packet);
    records.extend_from_slice(&eos_record());
    let file = sequence_file(2, TimeBase::TbWorkstationTime.as_repr(), 0, &records);
    let path = h.write_file("s.bin", &file);
    h.clock.set(1000, 0);
    h.command(
        OPCODE_CS_RUN,
        34,
        &run_args(&path, BlockState::NoBlock),
    );
    h.comp.set_cmd_timeout_timer(Time::new(TimeBase::TbWorkstationTime, 0, 1, 0));
    h.ground.clear();
    h.clock.set(2000, 0);
    h.sched_in(0);
    assert_eq!(h.com_packets(), vec![packet]);
    assert_eq!(
        h.ground
            .count_event(EVENTID_CS_SEQUENCE_TIMEOUT),
        0
    );
    assert_eq!(h.comp.run_mode(), RunMode::Running);
}

#[test]
fn manual_mode_requires_start_and_step() {
    let mut h = build();
    h.command(OPCODE_CS_MANUAL, 40, &[]);
    let first = command_packet(0x51, &[]);
    let second = command_packet(0x52, &[]);
    let mut records = command_record(RecordDescriptor::Relative as u8, 0, 0, &first);
    records.extend_from_slice(&command_record(
        RecordDescriptor::Relative as u8,
        0,
        0,
        &second,
    ));
    records.extend_from_slice(&eos_record());
    let file = sequence_file(3, TimeBase::TbWorkstationTime.as_repr(), 0, &records);
    let path = h.write_file("s.bin", &file);

    h.command(
        OPCODE_CS_RUN,
        41,
        &run_args(&path, BlockState::NoBlock),
    );
    assert!(h.com_packets().is_empty());
    assert_eq!(h.comp.run_mode(), RunMode::Stopped);

    h.ground.clear();
    h.command(OPCODE_CS_START, 42, &[]);
    assert_eq!(h.com_packets(), vec![first]);
    assert!(
        h.ground
            .event_ids()
            .contains(&EVENTID_CS_CMD_STARTED)
    );
    assert_eq!(h.comp.run_mode(), RunMode::Running);

    h.ground.clear();
    h.cmd_response_in(0x51, 0, CmdResponse::OK);
    assert!(h.com_packets().is_empty(), "no new command was dispatched");
    assert!(
        h.ground
            .event_ids()
            .contains(&EVENTID_CS_COMMAND_COMPLETE)
    );

    h.ground.clear();
    h.command(OPCODE_CS_STEP, 43, &[]);
    assert_eq!(h.com_packets(), vec![second]);
    let stepped = h
        .ground
        .find_event(EVENTID_CS_CMD_STEPPED)
        .expect("CS_CmdStepped");
    let name_len = u16::from_be_bytes([stepped.2[0], stepped.2[1]]) as usize;
    let tail = &stepped.2[2 + name_len..];
    assert_eq!(u32::from_be_bytes([tail[0], tail[1], tail[2], tail[3]]), 1);

    h.ground.clear();
    h.cmd_response_in(0x52, 0, CmdResponse::OK);
    assert!(
        !h.ground
            .event_ids()
            .contains(&EVENTID_CS_SEQUENCE_COMPLETE)
    );
    assert_eq!(h.comp.run_mode(), RunMode::Running);

    h.ground.clear();
    h.command(OPCODE_CS_STEP, 48, &[]);
    assert!(
        h.ground
            .event_ids()
            .contains(&EVENTID_CS_SEQUENCE_COMPLETE)
    );
    assert_eq!(h.comp.run_mode(), RunMode::Stopped);
}

#[test]
fn step_onto_end_of_sequence_suppresses_cmd_stepped() {
    let mut h = build();
    h.command(OPCODE_CS_MANUAL, 44, &[]);
    let path = h.write_file("s.bin", &simple_sequence(0x53));
    h.command(
        OPCODE_CS_RUN,
        45,
        &run_args(&path, BlockState::NoBlock),
    );
    h.command(OPCODE_CS_START, 46, &[]);
    h.cmd_response_in(0x53, 0, CmdResponse::OK);
    h.ground.clear();
    h.command(OPCODE_CS_STEP, 47, &[]);
    let ids = h.ground.event_ids();
    assert!(ids.contains(&EVENTID_CS_SEQUENCE_COMPLETE));
    assert!(!ids.contains(&EVENTID_CS_CMD_STEPPED));
    assert_eq!(
        h.responses(),
        vec![(ID_BASE + OPCODE_CS_STEP, 47, CmdResponse::OK)]
    );
}

#[test]
fn cancel_rewinds_so_start_can_rerun_the_sequence() {
    let mut h = build();
    let path = h.write_file("s.bin", &simple_sequence(0x60));
    h.command(
        OPCODE_CS_RUN,
        50,
        &run_args(&path, BlockState::NoBlock),
    );
    assert_eq!(h.com_packets().len(), 1);
    h.ground.clear();
    h.command(OPCODE_CS_CANCEL, 51, &[]);
    assert_eq!(
        h.responses(),
        vec![(
            ID_BASE + OPCODE_CS_CANCEL,
            51,
            CmdResponse::OK
        )]
    );
    assert!(
        h.ground
            .event_ids()
            .contains(&EVENTID_CS_SEQUENCE_CANCELED)
    );
    assert_eq!(
        h.ground.tlm_u32(CHANID_CS_CANCEL_COMMANDS),
        Some(1)
    );
    assert_eq!(h.comp.run_mode(), RunMode::Stopped);
    h.ground.clear();
    h.command(OPCODE_CS_START, 52, &[]);
    assert_eq!(h.com_packets().len(), 1, "the same record ran again");
    assert_eq!(h.comp.run_mode(), RunMode::Running);
}

#[test]
fn cancel_without_a_running_sequence_still_answers_ok() {
    let mut h = build();
    h.command(OPCODE_CS_CANCEL, 53, &[]);
    assert_eq!(
        h.responses(),
        vec![(
            ID_BASE + OPCODE_CS_CANCEL,
            53,
            CmdResponse::OK
        )]
    );
    assert!(
        h.ground
            .event_ids()
            .contains(&EVENTID_CS_NO_SEQUENCE_ACTIVE)
    );
    assert_eq!(
        h.ground.tlm_u32(CHANID_CS_CANCEL_COMMANDS),
        None
    );
}

#[test]
fn seq_cancel_in_port_cancels_without_a_command_response() {
    let mut h = build();
    let path = h.write_file("s.bin", &simple_sequence(0x61));
    h.command(
        OPCODE_CS_RUN,
        54,
        &run_args(&path, BlockState::NoBlock),
    );
    h.ground.clear();
    h.seq_cancel_in();
    assert!(h.responses().is_empty());
    assert!(
        h.ground
            .event_ids()
            .contains(&EVENTID_CS_SEQUENCE_CANCELED)
    );
    assert_eq!(h.comp.run_mode(), RunMode::Stopped);
}

#[test]
fn run_while_running_is_invalid_mode() {
    let mut h = build();
    let path = h.write_file("s.bin", &simple_sequence(0x70));
    h.command(
        OPCODE_CS_RUN,
        60,
        &run_args(&path, BlockState::NoBlock),
    );
    h.ground.clear();
    h.command(
        OPCODE_CS_RUN,
        61,
        &run_args(&path, BlockState::NoBlock),
    );
    assert_eq!(
        h.responses(),
        vec![(
            ID_BASE + OPCODE_CS_RUN,
            61,
            CmdResponse::ExecutionError
        )]
    );
    assert!(
        h.ground
            .event_ids()
            .contains(&EVENTID_CS_INVALID_MODE)
    );
    assert_eq!(
        h.ground
            .count_event(EVENTID_CS_JOIN_WAITING_NOT_COMPLETE),
        0
    );
}

#[test]
fn run_while_join_waiting_also_reports_join_waiting_not_complete() {
    let mut h = build();
    let path = h.write_file("s.bin", &simple_sequence(0x71));
    h.command(
        OPCODE_CS_RUN,
        62,
        &run_args(&path, BlockState::NoBlock),
    );
    h.command(OPCODE_CS_JOIN_WAIT, 63, &[]);
    h.ground.clear();
    h.command(
        OPCODE_CS_RUN,
        64,
        &run_args(&path, BlockState::NoBlock),
    );
    let ids = h.ground.event_ids();
    assert!(ids.contains(&EVENTID_CS_INVALID_MODE));
    assert!(ids.contains(&EVENTID_CS_JOIN_WAITING_NOT_COMPLETE));
}

#[test]
fn block_run_in_manual_mode_is_rejected() {
    let mut h = build();
    h.command(OPCODE_CS_MANUAL, 65, &[]);
    let path = h.write_file("s.bin", &simple_sequence(0x72));
    h.ground.clear();
    h.command(
        OPCODE_CS_RUN,
        66,
        &run_args(&path, BlockState::Block),
    );
    assert_eq!(
        h.responses(),
        vec![(
            ID_BASE + OPCODE_CS_RUN,
            66,
            CmdResponse::ExecutionError
        )]
    );
    assert!(
        h.ground
            .event_ids()
            .contains(&EVENTID_CS_INVALID_MODE)
    );
    assert_eq!(
        h.ground
            .count_event(EVENTID_CS_SEQUENCE_LOADED),
        0
    );
}

#[test]
fn validate_start_step_auto_manual_are_mode_guarded() {
    let mut h = build();
    let path = h.write_file("s.bin", &simple_sequence(0x73));
    h.command(
        OPCODE_CS_RUN,
        70,
        &run_args(&path, BlockState::NoBlock),
    );
    assert_eq!(h.comp.run_mode(), RunMode::Running);

    for (offset, seq) in [
        (OPCODE_CS_VALIDATE, 71u32),
        (OPCODE_CS_START, 72),
        (OPCODE_CS_AUTO, 73),
        (OPCODE_CS_MANUAL, 74),
    ] {
        h.ground.clear();
        let args: Vec<u8> = if offset == OPCODE_CS_VALIDATE {
            validate_args(&path)
        } else {
            Vec::new()
        };
        h.command(offset, seq, &args);
        assert_eq!(
            h.responses(),
            vec![(ID_BASE + offset, seq, CmdResponse::ExecutionError)],
            "opcode {offset}"
        );
        assert!(
            h.ground
                .event_ids()
                .contains(&EVENTID_CS_INVALID_MODE),
            "opcode {offset}"
        );
    }

    h.ground.clear();
    h.command(OPCODE_CS_STEP, 75, &[]);
    assert_eq!(
        h.responses(),
        vec![(
            ID_BASE + OPCODE_CS_STEP,
            75,
            CmdResponse::ExecutionError
        )]
    );
    assert!(
        h.ground
            .event_ids()
            .contains(&EVENTID_CS_INVALID_MODE)
    );
}

#[test]
fn step_while_stopped_is_invalid_mode() {
    let mut h = build();
    h.command(OPCODE_CS_STEP, 76, &[]);
    assert_eq!(
        h.responses(),
        vec![(
            ID_BASE + OPCODE_CS_STEP,
            76,
            CmdResponse::ExecutionError
        )]
    );
    assert!(
        h.ground
            .event_ids()
            .contains(&EVENTID_CS_INVALID_MODE)
    );
}

#[test]
fn start_without_a_loaded_sequence_is_no_sequence_active() {
    let mut h = build();
    h.command(OPCODE_CS_START, 77, &[]);
    assert_eq!(
        h.responses(),
        vec![(
            ID_BASE + OPCODE_CS_START,
            77,
            CmdResponse::ExecutionError
        )]
    );
    assert!(
        h.ground
            .event_ids()
            .contains(&EVENTID_CS_NO_SEQUENCE_ACTIVE)
    );
}

#[test]
fn mode_switch_events_use_the_inverted_seq_mode_enum() {
    let mut h = build();
    h.command(OPCODE_CS_MANUAL, 80, &[]);
    let event = h
        .ground
        .find_event(EVENTID_CS_MODE_SWITCHED)
        .expect("CS_ModeSwitched");
    assert_eq!(event.1, LogSeverity::ActivityHi);
    assert_eq!(event.2, vec![SeqMode::Step.as_repr()]);
    assert_eq!(event.2, vec![0u8], "CS_MANUAL logs SeqMode::STEP = 0");
    assert_eq!(h.comp.step_mode(), StepMode::Manual);

    h.ground.clear();
    h.command(OPCODE_CS_AUTO, 81, &[]);
    let event = h
        .ground
        .find_event(EVENTID_CS_MODE_SWITCHED)
        .expect("CS_ModeSwitched");
    assert_eq!(event.2, vec![1u8], "CS_AUTO logs SeqMode::AUTO = 1");
    assert_eq!(h.comp.step_mode(), StepMode::Auto);
}

#[test]
fn join_wait_without_a_running_sequence_answers_ok() {
    let mut h = build();
    h.command(OPCODE_CS_JOIN_WAIT, 90, &[]);
    assert_eq!(
        h.responses(),
        vec![(
            ID_BASE + OPCODE_CS_JOIN_WAIT,
            90,
            CmdResponse::OK
        )]
    );
    assert!(
        h.ground
            .event_ids()
            .contains(&EVENTID_CS_NO_SEQUENCE_ACTIVE)
    );
}

#[test]
fn join_wait_defers_and_logs_the_previous_command_identity() {
    let mut h = build();
    let path = h.write_file("s.bin", &simple_sequence(0x81));
    h.command(
        OPCODE_CS_RUN,
        91,
        &run_args(&path, BlockState::NoBlock),
    );
    h.ground.clear();
    h.command(OPCODE_CS_JOIN_WAIT, 92, &[]);
    assert!(h.responses().is_empty(), "the join response is deferred");
    let event = h
        .ground
        .find_event(EVENTID_CS_JOIN_WAITING)
        .expect("CS_JoinWaiting");
    let name_len = u16::from_be_bytes([event.2[0], event.2[1]]) as usize;
    let tail = &event.2[2 + name_len..];
    assert_eq!(u32::from_be_bytes([tail[0], tail[1], tail[2], tail[3]]), 91);
    assert_eq!(
        u32::from_be_bytes([tail[4], tail[5], tail[6], tail[7]]),
        event_opcode(ID_BASE + OPCODE_CS_RUN)
    );
    h.cmd_response_in(0x81, 0, CmdResponse::OK);
    assert_eq!(
        h.responses(),
        vec![(
            ID_BASE + OPCODE_CS_JOIN_WAIT,
            92,
            CmdResponse::OK
        )]
    );
}

#[test]
fn join_wait_rejects_a_second_deferred_caller() {
    let mut h = build();
    let path = h.write_file("s.bin", &simple_sequence(0x82));
    h.command(
        OPCODE_CS_RUN,
        93,
        &run_args(&path, BlockState::Block),
    );
    h.ground.clear();
    h.command(OPCODE_CS_JOIN_WAIT, 94, &[]);
    assert_eq!(
        h.responses(),
        vec![(
            ID_BASE + OPCODE_CS_JOIN_WAIT,
            94,
            CmdResponse::ExecutionError
        )]
    );
    assert!(
        h.ground
            .event_ids()
            .contains(&EVENTID_CS_JOIN_WAITING_NOT_COMPLETE)
    );

    let mut h2 = build();
    let path2 = h2.write_file("s2.bin", &simple_sequence(0x83));
    h2.command(
        OPCODE_CS_RUN,
        95,
        &run_args(&path2, BlockState::NoBlock),
    );
    h2.command(OPCODE_CS_JOIN_WAIT, 96, &[]);
    h2.ground.clear();
    h2.command(OPCODE_CS_JOIN_WAIT, 97, &[]);
    assert_eq!(
        h2.responses(),
        vec![(
            ID_BASE + OPCODE_CS_JOIN_WAIT,
            97,
            CmdResponse::ExecutionError
        )]
    );
}

#[test]
fn seq_run_in_starts_the_named_sequence_and_ignores_its_args() {
    let mut h = build();
    let packet = command_packet(0x90, &[]);
    let mut records = command_record(RecordDescriptor::Relative as u8, 0, 0, &packet);
    records.extend_from_slice(&eos_record());
    let file = sequence_file(2, TimeBase::TbWorkstationTime.as_repr(), 0, &records);
    let path = h.write_file("s.bin", &file);
    h.seq_run_in(&path);
    assert_eq!(h.com_packets(), vec![packet]);
    assert!(
        h.ground
            .event_ids()
            .contains(&EVENTID_CS_PORT_SEQUENCE_STARTED)
    );
    assert!(h.responses().is_empty());
    assert_eq!(h.comp.run_mode(), RunMode::Running);
}

#[test]
fn seq_dispatch_in_starts_the_named_sequence() {
    let mut h = build();
    let path = h.write_file("s.bin", &simple_sequence(0x91));
    h.seq_dispatch_in(&path);
    assert_eq!(h.com_packets().len(), 1);
    assert!(
        h.ground
            .event_ids()
            .contains(&EVENTID_CS_PORT_SEQUENCE_STARTED)
    );
}

#[test]
fn port_run_in_manual_mode_reports_invalid_mode_on_seq_done() {
    let mut h = build();
    h.command(OPCODE_CS_MANUAL, 100, &[]);
    h.ground.clear();
    h.seq_run_in("/tmp/whatever");
    assert!(
        h.ground
            .event_ids()
            .contains(&EVENTID_CS_INVALID_MODE)
    );
    assert_eq!(
        h.seq_done,
        vec![(0, 0, CmdResponse::ExecutionError)]
    );
}

#[test]
fn port_run_with_empty_name_and_no_loaded_sequence_errors() {
    let mut h = build();
    h.seq_run_in("");
    assert!(
        h.ground
            .event_ids()
            .contains(&EVENTID_CS_NO_SEQUENCE_ACTIVE)
    );
    assert_eq!(h.ground.tlm_u32(CHANID_CS_ERRORS), Some(1));
    assert_eq!(
        h.seq_done,
        vec![(0, 0, CmdResponse::ExecutionError)]
    );
}

#[test]
fn port_run_with_empty_name_reruns_the_loaded_sequence() {
    let mut h = build();
    let path = h.write_file("s.bin", &simple_sequence(0x92));
    h.command(
        OPCODE_CS_RUN,
        101,
        &run_args(&path, BlockState::NoBlock),
    );
    h.command(OPCODE_CS_CANCEL, 102, &[]);
    h.ground.clear();
    h.seq_run_in("");
    assert_eq!(h.com_packets().len(), 1, "the loaded sequence restarted");
    assert_eq!(
        h.ground
            .count_event(EVENTID_CS_SEQUENCE_LOADED),
        0,
        "an empty name must not reload"
    );
}

#[test]
fn port_run_load_failure_reports_on_seq_done() {
    let mut h = build();
    h.seq_dispatch_in("/x/missing.bin");
    assert!(
        h.ground
            .event_ids()
            .contains(&EVENTID_CS_FILE_NOT_FOUND)
    );
    assert_eq!(
        h.seq_done,
        vec![(0, 0, CmdResponse::ExecutionError)]
    );
}

#[test]
fn cancel_and_complete_tolerate_an_unconnected_seq_done() {
    let mut h = build_with(false, false);
    let path = h.write_file("s.bin", &simple_sequence(0x93));
    h.command(
        OPCODE_CS_RUN,
        103,
        &run_args(&path, BlockState::NoBlock),
    );
    h.cmd_response_in(0x93, 0, CmdResponse::OK);
    assert!(
        h.ground
            .event_ids()
            .contains(&EVENTID_CS_SEQUENCE_COMPLETE)
    );
    assert!(h.ground.seq_start.is_empty());
}

#[test]
fn ping_in_echoes_the_key_on_ping_out() {
    let mut h = build();
    h.ping_in(0xFEED_BEEF);
    assert_eq!(h.ground.pings, vec![0xFEED_BEEF]);
}

#[test]
fn reg_commands_registers_all_eight_opcodes() {
    let mut h = build();
    assert_eq!(
        h.ground.regs,
        vec![
            ID_BASE,
            ID_BASE + 1,
            ID_BASE + 2,
            ID_BASE + 3,
            ID_BASE + 4,
            ID_BASE + 5,
            ID_BASE + 6,
            ID_BASE + 7,
        ]
    );
}

#[test]
fn current_sequence_telemetry_is_update_on_change() {
    let mut h = build();
    let path = h.write_file("s.bin", &simple_sequence(0xA0));
    h.command(
        OPCODE_CS_RUN,
        110,
        &run_args(&path, BlockState::NoBlock),
    );
    let writes: Vec<Vec<u8>> = h
        .ground
        .tlm
        .iter()
        .filter(|t| t.0 == CHANID_CS_CURRENT_SEQUENCE)
        .map(|t| t.1.clone())
        .collect();
    assert_eq!(writes.len(), 1);
    assert_eq!(&writes[0][..2], &(path.len() as u16).to_be_bytes());
    assert_eq!(&writes[0][2..], path.as_bytes());

    h.command(OPCODE_CS_CANCEL, 111, &[]);
    h.command(OPCODE_CS_START, 112, &[]);
    let count = h
        .ground
        .tlm
        .iter()
        .filter(|t| t.0 == CHANID_CS_CURRENT_SEQUENCE)
        .count();
    assert_eq!(count, 1, "unchanged value is not rewritten");
}

#[test]
fn cmd_sequencer_unknown_opcode_answers_invalid_opcode() {
    let mut h = build();
    h.command(0x20, 120, &[]);
    assert_eq!(
        h.responses(),
        vec![(ID_BASE + 0x20, 120, CmdResponse::InvalidOpcode)]
    );
}

#[test]
fn short_and_residual_command_arguments_are_format_errors() {
    let mut h = build();
    h.command(OPCODE_CS_RUN, 121, &validate_args("/tmp/x"));
    assert_eq!(
        h.responses(),
        vec![(
            ID_BASE + OPCODE_CS_RUN,
            121,
            CmdResponse::FormatError
        )]
    );

    h.ground.clear();
    let mut args = validate_args("/tmp/x");
    args.push(0x00);
    h.command(OPCODE_CS_VALIDATE, 122, &args);
    assert_eq!(
        h.responses(),
        vec![(
            ID_BASE + OPCODE_CS_VALIDATE,
            122,
            CmdResponse::FormatError
        )]
    );

    h.ground.clear();
    h.command(OPCODE_CS_CANCEL, 123, &[0xFF]);
    assert_eq!(
        h.responses(),
        vec![(
            ID_BASE + OPCODE_CS_CANCEL,
            123,
            CmdResponse::FormatError
        )]
    );
}

#[test]
fn invalid_block_state_enum_answers_validation_error() {
    let mut h = build();
    let mut args = validate_args("/tmp/x");
    args.push(0x07);
    h.command(OPCODE_CS_RUN, 124, &args);
    assert_eq!(
        h.responses(),
        vec![(
            ID_BASE + OPCODE_CS_RUN,
            124,
            CmdResponse::ValidationError
        )]
    );
}

#[test]
fn command_file_names_longer_than_forty_bytes_are_format_errors() {
    let mut h = build();
    let long_name = "/".repeat(45);
    h.command(
        OPCODE_CS_VALIDATE,
        125,
        &validate_args(&long_name),
    );
    assert_eq!(
        h.responses(),
        vec![(
            ID_BASE + OPCODE_CS_VALIDATE,
            125,
            CmdResponse::FormatError
        )]
    );
}

#[test]
fn queue_message_size_fits_a_full_command_argument_buffer() {
    assert_eq!(QUEUE_MSG_SIZE, 6 + 4 + 4 + 2 + 506);
    assert!(QUEUE_MSG_SIZE >= 6 + 2 + 240 + 8 + SEQUENCE_ARGUMENTS_MAX_SIZE);
    assert_eq!(SeqArgs::SERIALIZED_SIZE, 8 + SEQUENCE_ARGUMENTS_MAX_SIZE);
}

#[test]
fn seq_run_in_envelope_round_trips_the_file_name_and_args() {
    let mut h = build();
    let path = h.write_file("s.bin", &simple_sequence(0xA1));
    let mut args = SeqArgs {
        size: 3,
        ..Default::default()
    };
    args.buffer.0[0] = 0xDE;
    h.post_seq_run(&path, &args);
    assert_eq!(h.queue.len(), 1);
    h.drain();
    assert_eq!(h.com_packets().len(), 1);
}

#[test]
fn load_sequence_preloads_at_topology_time() {
    let mut h = build();
    let path = h.write_file("s.bin", &simple_sequence(0xA2));
    h.load_sequence(&path);
    assert!(
        h.ground
            .event_ids()
            .contains(&EVENTID_CS_SEQUENCE_LOADED)
    );
    h.ground.clear();
    h.command(OPCODE_CS_START, 130, &[]);
    assert_eq!(h.com_packets().len(), 1);
}

#[test]
fn a_failed_load_clears_the_sequence_so_start_cannot_run_it() {
    let mut h = build();
    let mut file = simple_sequence(0xA3);
    let last = file.len() - 1;
    file[last] ^= 0xFF;
    let path = h.write_file("s.bin", &file);
    h.command(OPCODE_CS_VALIDATE, 131, &validate_args(&path));
    h.ground.clear();
    h.command(OPCODE_CS_START, 132, &[]);
    assert_eq!(
        h.responses(),
        vec![(
            ID_BASE + OPCODE_CS_START,
            132,
            CmdResponse::ExecutionError
        )]
    );
    assert!(
        h.ground
            .event_ids()
            .contains(&EVENTID_CS_NO_SEQUENCE_ACTIVE)
    );
}

#[test]
fn set_sequence_format_swaps_the_reader() {
    let mut h = build();
    let mut replacement = FPrimeSequence::new();
    replacement.allocate_buffer(7, 256);
    assert_eq!(replacement.allocator_id(), 7);
    h.comp.set_sequence_format(replacement);
    assert_eq!(h.comp.sequence().capacity(), 256);
}

#[test]
fn deallocate_buffer_releases_the_storage() {
    let mut h = build();
    assert_eq!(
        h.comp.sequence().capacity(),
        BUFFER_BYTES
    );
    h.comp.deallocate_buffer();
    assert_eq!(h.comp.sequence().capacity(), 0);
}

#[test]
fn load_command_counter_increments_on_every_successful_load() {
    let mut h = build();
    let path = h.write_file("s.bin", &simple_sequence(0xA5));
    for (n, seq) in [(1u32, 140u32), (2, 141), (3, 142)] {
        h.command(OPCODE_CS_VALIDATE, seq, &validate_args(&path));
        assert_eq!(
            h.ground.tlm_u32(CHANID_CS_LOAD_COMMANDS),
            Some(n)
        );
    }
}

#[test]
fn seq_args_serializes_as_u64_size_then_255_raw_bytes() {
    let mut args = SeqArgs {
        size: 2,
        ..Default::default()
    };
    args.buffer.0[0] = 0xAB;
    args.buffer.0[1] = 0xCD;
    let bytes = args.serialize();
    assert_eq!(bytes.len(), 8 + SEQUENCE_ARGUMENTS_MAX_SIZE);
    assert_eq!(&bytes[..8], &[0, 0, 0, 0, 0, 0, 0, 2]);
    assert_eq!(&bytes[8..10], &[0xAB, 0xCD]);
    assert!(bytes[10..].iter().all(|b| *b == 0));
}

#[test]
fn enum_representations_match_the_fpp_model() {
    assert_eq!(BlockState::Block.as_repr(), 0);
    assert_eq!(BlockState::NoBlock.as_repr(), 1);
    assert_eq!(SeqMode::Step.as_repr(), 0);
    assert_eq!(SeqMode::Auto.as_repr(), 1);
    assert_eq!(FileReadStage::ReadHeader.as_repr(), 0);
    assert_eq!(FileReadStage::ReadSeqDataSize.as_repr(), 8);
    assert_eq!(RecordDescriptor::Absolute as u8, 0);
    assert_eq!(RecordDescriptor::Relative as u8, 1);
    assert_eq!(RecordDescriptor::EndOfSequence as u8, 2);
    assert_eq!(RunMode::default(), RunMode::Stopped);
    assert_eq!(StepMode::default(), StepMode::Auto);
    assert_eq!(RunMode::Running as i32, 1);
    assert_eq!(StepMode::Manual as i32, 1);
}

#[test]
fn default_header_carries_the_dont_care_sentinels() {
    let header = SequenceHeader::default();
    assert_eq!(header.time_base, TimeBase::TbDontCare);
    assert_eq!(header.time_context, FW_CONTEXT_DONT_CARE);
    assert_eq!(TimeBase::TbDontCare.as_repr(), 0xFFFF);
    assert_eq!(FW_CONTEXT_DONT_CARE, 0xFF);
}

#[test]
fn end_of_sequence_record_consumes_exactly_one_byte() {
    let mut records = eos_record();
    records.extend_from_slice(&command_record(
        RecordDescriptor::Relative as u8,
        0,
        0,
        &command_packet(0xB0, &[]),
    ));
    let file = sequence_file(2, TimeBase::TbWorkstationTime.as_repr(), 0, &records);
    let image = image_of(&file);

    let mut sequence = FPrimeSequence::new();
    sequence.allocate_buffer(0, 512);
    let now = Time::new(TimeBase::TbWorkstationTime, 0, 5, 0);
    let mut event = None;
    assert!(sequence.load_file(b"s.bin", &image, &now, &mut event));
    assert!(event.is_none());

    let mut record = SequenceRecord::default();
    sequence.next_record(&mut record);
    assert_eq!(record.descriptor, RecordDescriptor::EndOfSequence);
    sequence.next_record(&mut record);
    assert_eq!(record.descriptor, RecordDescriptor::Relative);
    assert_eq!(record.command.as_slice(), command_packet(0xB0, &[]));
    assert!(!sequence.has_more_records());
    sequence.reset();
    assert!(sequence.has_more_records());
    sequence.clear();
    assert!(!sequence.has_more_records());
}

#[test]
fn record_time_tags_carry_no_base_or_context_on_the_wire() {
    let records = command_record(
        RecordDescriptor::Absolute as u8,
        0x0102_0304,
        0x0005_0607,
        &command_packet(0xB1, &[]),
    );
    let file = sequence_file(1, TimeBase::TbWorkstationTime.as_repr(), 0, &records);
    assert_eq!(records.len(), 13 + 6);
    let image = image_of(&file);

    let mut sequence = FPrimeSequence::new();
    sequence.allocate_buffer(0, 512);
    let now = Time::new(TimeBase::TbWorkstationTime, 0, 5, 0);
    let mut event = None;
    assert!(sequence.load_file(b"s.bin", &image, &now, &mut event));
    let mut record = SequenceRecord::default();
    sequence.next_record(&mut record);
    assert_eq!(record.time_tag.get_seconds(), 0x0102_0304);
    assert_eq!(record.time_tag.get_useconds(), 0x0005_0607);
    assert_eq!(record.time_tag.get_time_base(), TimeBase::TbNone);
    assert_eq!(record.time_tag.get_context(), 0);
}

#[test]
fn opening_a_directory_is_a_file_read_error() {
    let mut h = build();
    let path = h.make_directory("d");
    h.command(OPCODE_CS_VALIDATE, 150, &validate_args(&path));
    let ids = h.ground.event_ids();
    assert!(
        ids.contains(&EVENTID_CS_FILE_READ_ERROR)
            || ids.contains(&EVENTID_CS_FILE_INVALID),
        "expected a read failure, got {ids:?}"
    );
    assert_eq!(h.ground.tlm_u32(CHANID_CS_ERRORS), Some(1));
}

#[test]
fn start_emits_seq_start_out_after_the_first_step() {
    let mut h = build();
    h.command(OPCODE_CS_MANUAL, 151, &[]);
    let path = h.write_file("s.bin", &simple_sequence(0xB2));
    h.command(
        OPCODE_CS_RUN,
        152,
        &run_args(&path, BlockState::NoBlock),
    );
    h.ground.clear();
    h.command(OPCODE_CS_START, 153, &[]);
    let starts = h.ground.seq_start.clone();
    assert_eq!(starts.len(), 1);
    assert_eq!(starts[0].0, path.as_bytes());
}

#[test]
fn command_error_answers_a_deferred_join_wait_caller() {
    let mut h = build();
    let path = h.write_file("s.bin", &simple_sequence(0xB3));
    h.command(
        OPCODE_CS_RUN,
        154,
        &run_args(&path, BlockState::NoBlock),
    );
    h.command(OPCODE_CS_JOIN_WAIT, 155, &[]);
    h.ground.clear();
    h.cmd_response_in(0xB3, 0, CmdResponse::ExecutionError);
    assert_eq!(
        h.responses(),
        vec![(
            ID_BASE + OPCODE_CS_JOIN_WAIT,
            155,
            CmdResponse::ExecutionError
        )]
    );
    assert!(!h.comp.join_waiting());
}

#[test]
fn component_runs_on_its_own_task() {
    let mut h = build();
    let path = h.write_file("s.bin", &simple_sequence(0xB4));
    h.post_command(
        ID_BASE + OPCODE_CS_RUN,
        160,
        &run_args(&path, BlockState::NoBlock),
    );
    h.drain();
    assert!(h.queue.is_empty());

    assert_eq!(
        h.responses(),
        vec![(ID_BASE + OPCODE_CS_RUN, 160, CmdResponse::OK)]
    );
    assert_eq!(h.com_packets().len(), 1);
}

#[test]
fn load_reports_a_read_failure_with_its_stage_and_status() {
    let mut h = build();
    let mut image = image_of(&simple_sequence(0x42));
    image.header = FileStatus::NoPermission;
    h.files.insert(b"/tmp/a".to_vec(), image);
    h.command(OPCODE_CS_VALIDATE, 1, &validate_args("/tmp/a"));
    let event = h.ground.find_event(EVENTID_CS_FILE_INVALID).unwrap();
    assert_eq!(event.2[2 + 6..], [FileReadStage::ReadHeader.as_repr(), 0, 0, 0, 3]);

    h.ground.clear();
    let mut image = image_of(&simple_sequence(0x42));
    image.records = FileStatus::BadSize;
    h.files.insert(b"/tmp/a".to_vec(), image);
    h.command(OPCODE_CS_VALIDATE, 2, &validate_args("/tmp/a"));
    let event = h.ground.find_event(EVENTID_CS_FILE_INVALID).unwrap();
    assert_eq!(event.2[2 + 6..], [FileReadStage::ReadSeqData.as_repr(), 0, 0, 0, 4]);
}

#[test]
fn a_tag_of_a_full_second_of_microseconds_is_told_beforehand() {
    let h = build();
    let records = command_record(0, 5, 1_000_000, &command_packet(1, &[]));
    let bad = sequence_file(1, TimeBase::TbWorkstationTime.as_repr(), 0, &records);
    assert!(!h.comp.accepts_tags(&image_of(&bad), &h.clock.time));
    let records = command_record(0, 5, 999_999, &command_packet(1, &[]));
    let good = sequence_file(1, TimeBase::TbWorkstationTime.as_repr(), 0, &records);
    assert!(h.comp.accepts_tags(&image_of(&good), &h.clock.time));
}

#[test]
fn a_malformed_message_is_refused_and_changes_nothing() {
    let mut h = build();
    let inputs = Inputs {
        file: failed_open(FileStatus::NotOpened),
        now: h.clock.time,
        later: h.clock.time,
    };
    let mut out = Vec::new();
    for (msg_type, body) in [
        (0, vec![0u8; 64]),
        (8, vec![0u8; 64]),
        (MSG_TYPE_SEQ_CANCEL_IN, vec![0u8]),
        (MSG_TYPE_PING_IN, vec![0u8; 5]),
        (MSG_TYPE_CMD_RESPONSE_IN, vec![0, 0, 0, 0, 0, 0, 0, 0, 0, 0, 9]),
        (MSG_TYPE_SEQ_RUN_IN, vec![0u8; 4 + 262]),
        (MSG_TYPE_SEQ_DISPATCH_IN, vec![0, 0, 0, 241]),
        (MSG_TYPE_CMD_IN, vec![0u8; 11]),
    ] {
        let status = h.comp.dispatch_message(msg_type, &body, &inputs, &mut out);
        assert_eq!(status, MsgDispatchStatus::Error);
        assert!(out.is_empty());
    }
}

#[test]
fn a_sequence_file_gives_back_its_records() {
    let mut records = command_record(0, 7, 8, &command_packet(0x11, &[1, 2]));
    records.extend_from_slice(&command_record(1, 9, 10, &command_packet(0x22, &[])));
    records.extend_from_slice(&eos_record());
    let mut file = sequence_file(3, 0xFFFF, 0xFF, &records);
    file.push(0x99);
    let mut sequence = FPrimeSequence::new();
    sequence.allocate_buffer(3, 256);
    let now = Time::new(TimeBase::TbScTime, 6, 1, 2);
    let mut event: Option<SequenceLoadEvent> = None;
    assert!(sequence.load_file(b"x", &image_of(&file), &now, &mut event));
    assert_eq!(sequence.header().num_records, 3);
    assert_eq!(sequence.header().time_base, TimeBase::TbScTime);
    assert_eq!(sequence.header().time_context, 6);
    let crc_at = 11 + records.len();
    assert_eq!(sequence.stored_crc().to_be_bytes(), file[crc_at..crc_at + 4]);
    let mut record = SequenceRecord::default();
    sequence.next_record(&mut record);
    assert_eq!(record.descriptor, RecordDescriptor::Absolute);
    assert_eq!((record.time_tag.seconds, record.time_tag.useconds), (7, 8));
    assert_eq!(record.command, command_packet(0x11, &[1, 2]));
    sequence.next_record(&mut record);
    assert_eq!(record.descriptor, RecordDescriptor::Relative);
    assert_eq!(record.command, command_packet(0x22, &[]));
    sequence.next_record(&mut record);
    assert_eq!(record.descriptor, RecordDescriptor::EndOfSequence);
    assert_eq!(record.command, command_packet(0x22, &[]));
    assert!(!sequence.has_more_records());
}

#[test]
fn every_event_of_a_failed_load_but_one_counts_as_an_error() {
    let mut h = build();
    h.command(OPCODE_CS_VALIDATE, 1, &validate_args("/none"));
    h.command(OPCODE_CS_VALIDATE, 2, &validate_args("/none"));
    assert_eq!(h.ground.tlm_u32(CHANID_CS_ERRORS), Some(2));
    assert_eq!(h.ground.tlm_u32(CHANID_CS_LOAD_COMMANDS), None);
}

/// A run that fails has to be announced: where nobody listens, it is known beforehand that
/// it cannot be handled.
#[test]
fn failing_port_runs_need_a_listener() {
    let mut h = build_with(false, true);
    let good = h.write_file("good.bin", &simple_sequence(0x10));
    let takes = |h: &Harness, name: &str| {
        let inputs = Inputs {
            file: h.read_file(name.as_bytes()),
            now: h.clock.time,
            later: h.clock.time,
        };
        let message = Message::SeqDispatch { name: name.as_bytes().to_vec() };
        h.comp.takes_message(&message, &inputs)
    };
    assert!(takes(&h, &good));
    assert!(!takes(&h, "/tmp/seq/missing.bin"));
    assert!(!takes(&h, ""));
    h.load_sequence(&good);
    assert!(takes(&h, ""));
    h.comp.connect_seq_done();
    assert!(takes(&h, "/tmp/seq/missing.bin"));
}

/// Only an answer brings the next command, and the commands go out in the order of the
/// file.
#[test]
fn the_next_command_waits_for_the_answer() {
    let mut h = build();
    let packets: Vec<Vec<u8>> = (1u32..5).map(|op| command_packet(op, &[op as u8])).collect();
    let mut records = Vec::new();
    for packet in &packets {
        records.extend_from_slice(&command_record(
            RecordDescriptor::Relative as u8,
            0,
            0,
            packet,
        ));
    }
    records.extend_from_slice(&eos_record());
    let file = sequence_file(5, TimeBase::TbWorkstationTime.as_repr(), 0, &records);
    let path = h.write_file("s.bin", &file);
    h.command(OPCODE_CS_RUN, 1, &run_args(&path, BlockState::NoBlock));
    for i in 0..4 {
        assert_eq!(h.comp.run_mode(), RunMode::Running);
        assert_eq!(h.com_packets(), packets[..i + 1].to_vec());
        h.sched_in(0);
        h.ping_in(7);
        h.command(OPCODE_CS_RUN, 2, &run_args(&path, BlockState::NoBlock));
        h.command(OPCODE_CS_STEP, 3, &[]);
        h.seq_dispatch_in(&path);
        assert_eq!(h.com_packets(), packets[..i + 1].to_vec());
        h.cmd_response_in(i as u32 + 1, 0, CmdResponse::OK);
    }
    assert_eq!(h.comp.run_mode(), RunMode::Stopped);
    assert_eq!(h.com_packets(), packets);
    assert_eq!(h.ground.tlm_u32(CHANID_CS_SEQUENCES_COMPLETED), Some(1));
}

/// A record that waited for its time goes out once.
#[test]
fn a_waiting_record_is_sent_once() {
    let mut h = build();
    let packet = command_packet(0x45, &[1, 2]);
    let mut records = command_record(RecordDescriptor::Relative as u8, 10, 0, &packet);
    records.extend_from_slice(&eos_record());
    let file = sequence_file(2, TimeBase::TbWorkstationTime.as_repr(), 0, &records);
    let path = h.write_file("s.bin", &file);
    h.command(OPCODE_CS_RUN, 1, &run_args(&path, BlockState::NoBlock));
    for seconds in [1009u32, 1010, 1011, 1012] {
        h.clock.set(seconds, 0);
        h.sched_in(0);
        let expected = if seconds < 1010 { 0 } else { 1 };
        assert_eq!(h.com_packets().len(), expected);
    }
    assert_eq!(h.com_packets(), vec![packet]);
}

/// With timed records, a clock that moves and no end record, what was sent is always the
/// commands of the records read, but for one that waits for its time.
#[test]
fn records_read_are_sent_but_for_one_that_waits() {
    let mut h = build();
    let packets: Vec<Vec<u8>> = (1u32..4).map(|op| command_packet(op, &[op as u8])).collect();
    let mut records = command_record(RecordDescriptor::Absolute as u8, 1005, 0, &packets[0]);
    records.extend_from_slice(&command_record(
        RecordDescriptor::Relative as u8,
        0,
        0,
        &packets[1],
    ));
    records.extend_from_slice(&command_record(
        RecordDescriptor::Relative as u8,
        3,
        0,
        &packets[2],
    ));
    let file = sequence_file(3, TimeBase::TbWorkstationTime.as_repr(), 0, &records);
    let path = h.write_file("s.bin", &file);
    h.seq_run_in(&path);
    let mut sent = Vec::new();
    for seconds in 1001u32..1020 {
        h.clock.set(seconds, 0);
        h.ping_in(seconds);
        h.sched_in(0);
        let now = h.com_packets().len();
        sent.push(now);
        if h.comp.run_mode() == RunMode::Running && !h.comp.cmd_timer().is_armed() {
            h.cmd_response_in(now as u32, 0, CmdResponse::OK);
        }
        assert_eq!(h.com_packets(), packets[..h.com_packets().len()].to_vec());
    }
    assert_eq!(sent[..9], [0, 0, 0, 0, 1, 2, 2, 2, 3]);
    assert_eq!(h.com_packets(), packets);
    assert_eq!(h.comp.run_mode(), RunMode::Stopped);
}

/// A load that fails leaves in the buffer what was read up to there, until it is cleared.
#[test]
fn a_failed_load_leaves_what_was_read() {
    let now = Time::new(TimeBase::TbWorkstationTime, 0, 1, 0);
    let packet = command_packet(0x51, &[7]);
    let mut records = command_record(1, 0, 0, &packet);
    records.extend_from_slice(&eos_record());
    let base = TimeBase::TbWorkstationTime.as_repr();
    let good = sequence_file(2, base, 0, &records);
    let try_load = |sequence: &mut FPrimeSequence, image: &FileImage| {
        let mut event: Option<SequenceLoadEvent> = None;
        assert!(!sequence.load_file(b"x", image, &now, &mut event));
        event.unwrap()
    };
    let fresh = || {
        let mut sequence = FPrimeSequence::new();
        sequence.allocate_buffer(0, 256);
        sequence
    };

    // Nothing was opened: a sequence that was loaded before is still there.
    let mut sequence = fresh();
    let missing = failed_open(FileStatus::DoesntExist);
    assert_eq!(try_load(&mut sequence, &missing), SequenceLoadEvent::FileNotFound);
    assert!(!sequence.has_more_records());
    let mut event: Option<SequenceLoadEvent> = None;
    assert!(sequence.load_file(b"x", &image_of(&good), &now, &mut event));
    assert_eq!(try_load(&mut sequence, &missing), SequenceLoadEvent::FileNotFound);
    assert!(sequence.has_more_records());
    let mut record = SequenceRecord::default();
    sequence.next_record(&mut record);
    assert_eq!(record.command, packet);

    // A file too short for a header leaves the cursor where it was.
    let mut sequence = fresh();
    try_load(&mut sequence, &image_of(&[1, 2, 3]));
    assert!(!sequence.has_more_records());

    // A header that is refused is left behind the fields that were read.
    let mut sequence = fresh();
    let large = sequence_file(1, base, 0, &[0u8; 300]);
    assert!(matches!(
        try_load(&mut sequence, &image_of(&large)),
        SequenceLoadEvent::FileSizeError { .. }
    ));
    assert!(sequence.has_more_records());
    let mut sequence = fresh();
    try_load(&mut sequence, &image_of(&sequence_file(2, 0x1234, 0, &records)));
    assert!(sequence.has_more_records());

    // Records that end early: the header was read to its end.
    let mut sequence = fresh();
    try_load(&mut sequence, &image_of(&good[..good.len() - 1]));
    assert!(!sequence.has_more_records());

    // No room for a checksum.
    let mut sequence = fresh();
    let mut short = good[..11].to_vec();
    short[..4].copy_from_slice(&2u32.to_be_bytes());
    short.extend_from_slice(&[9, 9]);
    try_load(&mut sequence, &image_of(&short));
    assert!(sequence.has_more_records());

    // A wrong checksum: the records are there and can be read.
    let mut bad = good.clone();
    let last = bad.len() - 1;
    bad[last] ^= 0xFF;
    let mut sequence = fresh();
    assert!(matches!(
        try_load(&mut sequence, &image_of(&bad)),
        SequenceLoadEvent::FileCrcFailure { .. }
    ));
    assert!(sequence.has_more_records());
    let mut record = SequenceRecord::default();
    sequence.next_record(&mut record);
    assert_eq!(record.command, packet);
    sequence.next_record(&mut record);
    assert_eq!(record.descriptor, RecordDescriptor::EndOfSequence);
    assert!(!sequence.has_more_records());
    sequence.reset();
    assert!(sequence.has_more_records());
    sequence.clear();
    assert!(!sequence.has_more_records());

    // The clock does not fit, or there are no records: nothing was taken apart.
    for file in [
        sequence_file(2, TimeBase::TbScTime.as_repr(), 0, &records),
        sequence_file(0, base, 0, &records),
    ] {
        let mut sequence = fresh();
        try_load(&mut sequence, &image_of(&file));
        assert!(sequence.has_more_records());
    }

    // More records than there are, and bytes left over.
    let mut sequence = fresh();
    try_load(&mut sequence, &image_of(&sequence_file(3, base, 0, &records)));
    assert!(!sequence.has_more_records());
    let mut sequence = fresh();
    try_load(&mut sequence, &image_of(&sequence_file(1, base, 0, &records)));
    assert!(sequence.has_more_records());
}
