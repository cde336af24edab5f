//! The packet log, driven through its queue messages, on files that are kept in memory.
use fprime_svc::com_logger::component::ComLogger;
use fprime_svc::com_logger::dictionary::{
    Action, EVENTID_FILE_CLOSED, EVENTID_FILE_NOT_INITIALIZED, EVENTID_FILE_OPEN_ERROR,
    EVENTID_FILE_VALIDATION_ERROR, EVENTID_FILE_WRITE_ERROR, FILE_NOT_INITIALIZED_THROTTLE,
    OPCODE_CLOSE_FILE,
};
use fprime_svc::com_logger::messages::{
    Content, Message, MSG_TYPE_CMD_IN, MSG_TYPE_COM_IN, MSG_TYPE_PING_IN, QUEUE_MSG_SIZE,
};
use fprime_svc::com_logger::validation::{
    create_validation, translate_status, write_hash, FileHash, StatusFileType, ValidateStatus,
    VFILE_HASH_CHUNK_SIZE,
};
use fprime_svc::fw::crc32::Crc32;
use fprime_svc::fw::time::{Time, TimeBase};
use fprime_svc::fw::types::{CmdResponse, FileStatus, LogSeverity, MsgDispatchStatus};
use std::collections::BTreeMap;

const ID_BASE: u32 = 0x3300;

/// The logger, its queue and its files, and what it did, output by output.
struct Harness {
    comp: ComLogger,
    queue: Vec<Vec<u8>>,
    files: BTreeMap<String, Vec<u8>>,
    /// The file that is open.
    open: Option<String>,
    /// How many bytes the device has room for.
    room: usize,
    seconds: u32,
    events: Vec<(u32, LogSeverity, Vec<u8>)>,
    regs: Vec<u32>,
    responses: Vec<(u32, u32, CmdResponse)>,
    pings: Vec<u32>,
}

fn harness(mut comp: ComLogger) -> Harness {
    comp.connect_ping();
    Harness {
        comp,
        queue: Vec::new(),
        files: BTreeMap::new(),
        open: None,
        room: 100_000,
        seconds: 0,
        events: Vec::new(),
        regs: Vec::new(),
        responses: Vec::new(),
        pings: Vec::new(),
    }
}

fn build() -> Harness {
    harness(ComLogger::new(ID_BASE))
}

fn build_with_log_file(prefix: &str, max_file_size: u32, store_buffer_length: bool) -> Harness {
    harness(ComLogger::with_log_file(
        ID_BASE,
        prefix.as_bytes(),
        max_file_size,
        store_buffer_length,
    ))
}

/// Makes the checksum file of a file.
fn make_validation(
    files: &mut BTreeMap<String, Vec<u8>>,
    name: &str,
    hash_name: &str,
) -> ValidateStatus {
    let content = match files.get(name) {
        Some(content) => content.clone(),
        None => return create_validation(FileStatus::DoesntExist, FileStatus::OpOk),
    };
    let mut hash = FileHash::new(content.len() as u64);
    let mut rest = content.as_slice();
    while hash.wants_more() {
        let n = rest.len().min(VFILE_HASH_CHUNK_SIZE);
        hash.chunk(&rest[..n]);
        rest = &rest[n..];
    }
    match hash.digest() {
        Ok(digest) => {
            let size = digest.len() as u64;
            files.insert(hash_name.to_string(), digest);
            create_validation(FileStatus::OpOk, write_hash(FileStatus::OpOk, size, size))
        }
        Err(status) => create_validation(status, FileStatus::OpOk),
    }
}

impl Harness {
    /// The time, one second later at each call.
    fn now(&mut self) -> Time {
        let time = Time::new(TimeBase::TbWorkstationTime, 0, 100 + self.seconds, 42);
        self.seconds += 1;
        time
    }

    fn take(&mut self, out: Vec<Action>) {
        for action in out {
            let mut next = Vec::new();
            match action {
                Action::Event(event) => {
                    self.events.push((ID_BASE + event.id(), event.severity(), event.args()));
                }
                Action::CmdReg { op_code } => self.regs.push(op_code),
                Action::CmdResponse { op_code, cmd_seq, response } => {
                    self.responses.push((op_code, cmd_seq, response));
                }
                Action::PingOut { key } => self.pings.push(key),
                Action::OpenFile { name } => {
                    let name = String::from_utf8(name).unwrap();
                    let status = if name.contains("/missing/") {
                        FileStatus::DoesntExist
                    } else {
                        self.files.insert(name.clone(), Vec::new());
                        self.open = Some(name);
                        FileStatus::OpOk
                    };
                    self.comp.file_opened(status, &mut next);
                }
                Action::WriteFile { data } => {
                    let name = self.open.clone().unwrap();
                    let n = data.len().min(self.room);
                    self.room -= n;
                    self.files.get_mut(&name).unwrap().extend_from_slice(&data[..n]);
                    self.comp.file_written(FileStatus::OpOk, n as u64, &mut next);
                }
                Action::CloseFile { name, hash_name } => {
                    let name = String::from_utf8(name).unwrap();
                    let hash_name = String::from_utf8(hash_name).unwrap();
                    assert_eq!(self.open.take(), Some(name.clone()));
                    let status = make_validation(&mut self.files, &name, &hash_name);
                    if !self.comp.is_idle() {
                        let now = self.now();
                        assert!(self.comp.name_fits(&now));
                        self.comp.file_closed(status, &now, &mut next);
                    }
                }
            }
            self.take(next);
        }
    }

    fn send_com(&mut self, bytes: &[u8]) {
        let content = Content::Com { data: bytes.to_vec(), context: 0 };
        self.queue.push(Message { port: 0, content }.encode());
    }

    fn send_cmd(&mut self, op_code: u32, cmd_seq: u32, args: &[u8]) {
        let content = Content::Cmd { op_code, cmd_seq, args: args.to_vec() };
        self.queue.push(Message { port: 0, content }.encode());
    }

    fn send_close_cmd(&mut self, cmd_seq: u32, args: &[u8]) {
        self.send_cmd(ID_BASE + OPCODE_CLOSE_FILE, cmd_seq, args);
    }

    fn reg_commands(&mut self) {
        let mut out = Vec::new();
        self.comp.reg_commands(&mut out);
        self.take(out);
    }

    /// Dispatches all queued messages.
    fn run(&mut self) {
        for message in std::mem::take(&mut self.queue) {
            let msg_type = i32::from_be_bytes([message[0], message[1], message[2], message[3]]);
            let decoded = Message::decode(msg_type, &message[4..]).unwrap();
            let now = self.now();
            assert!(self.comp.takes_message(&decoded, &now));
            let mut out = Vec::new();
            let status = self.comp.dispatch_message(msg_type, &message[4..], &now, &mut out);
            assert_eq!(status, MsgDispatchStatus::OK);
            self.take(out);
            assert!(self.comp.is_idle());
        }
    }

    fn shut_down(&mut self) {
        let mut out = Vec::new();
        self.comp.shut_down(&mut out);
        self.take(out);
        assert!(!self.comp.is_file_open());
    }

    fn read(&self, name: &str) -> Vec<u8> {
        self.files[name].clone()
    }

    fn com_files(&self) -> Vec<String> {
        self.files.keys().filter(|n| n.ends_with(".com")).cloned().collect()
    }
}

#[test]
fn records_are_length_prefixed_big_endian_and_the_name_is_timestamped() {
    let prefix = "/logs/log";
    let mut h = build_with_log_file(prefix, 1024, true);

    h.send_com(&[0xAA, 0xBB, 0xCC]);
    h.send_com(&[0x01]);
    h.send_close_cmd(7, &[]);
    h.run();

    // The name holds the time at which the file was opened.
    let expected_name = format!("{prefix}_2_100_000042.com");
    assert_eq!(
        h.read(&expected_name),
        vec![0x00, 0x03, 0xAA, 0xBB, 0xCC, 0x00, 0x01, 0x01]
    );

    // Sidecar: 4 big-endian bytes of the CRC-32 of the .com file.
    let crc = Crc32::hash_u32(&[0x00, 0x03, 0xAA, 0xBB, 0xCC, 0x00, 0x01, 0x01]);
    assert_eq!(
        h.read(&format!("{expected_name}.CRC32")),
        crc.to_be_bytes().to_vec()
    );

    // FileClosed (DIAGNOSTIC) carries the file name, and the command
    // answered exactly once.
    let events = &h.events;
    assert_eq!(events.len(), 1);
    assert_eq!(events[0].0, ID_BASE + EVENTID_FILE_CLOSED);
    assert_eq!(events[0].1, LogSeverity::Diagnostic);
    let mut expected_args = vec![0x00, expected_name.len() as u8];
    expected_args.extend_from_slice(expected_name.as_bytes());
    assert_eq!(events[0].2, expected_args);
    assert_eq!(
        h.responses,
        vec![(ID_BASE + OPCODE_CLOSE_FILE, 7, CmdResponse::OK)]
    );
}

#[test]
fn without_store_buffer_length_records_are_raw_bytes() {
    let prefix = "/logs/raw";
    let mut h = build_with_log_file(prefix, 1024, false);
    h.send_com(&[1, 2, 3]);
    h.send_com(&[4, 5]);
    h.run();
    let name = format!("{prefix}_2_100_000042.com");
    assert_eq!(h.read(&name), vec![1, 2, 3, 4, 5]);
}

#[test]
fn rotation_uses_strict_greater_than_including_the_length_prefix() {
    let prefix = "/logs/rot";
    // At most 10 bytes: two 5-byte records (2 + 3) fit exactly; the third
    // projects 15 > 10 and rotates.
    let mut h = build_with_log_file(prefix, 10, true);
    h.send_com(&[1, 2, 3]);
    h.send_com(&[4, 5, 6]);
    h.send_com(&[7, 8, 9]);
    h.run();

    // Two files: the first holds just as much as it may, the second starts with the
    // record for which there was no room.
    let files = h.com_files();
    assert_eq!(files.len(), 2, "one rotation: {files:?}");
    let (first, second) = (&files[0], &files[1]);
    assert_eq!(*first, format!("{prefix}_2_100_000042.com"));
    assert_eq!(
        h.read(first),
        vec![0, 3, 1, 2, 3, 0, 3, 4, 5, 6]
    );
    assert_eq!(h.read(second), vec![0, 3, 7, 8, 9]);
    // The full file has its checksum file at once.
    assert!(h.files.contains_key(&format!("{first}.CRC32")));
}

#[test]
fn dropping_the_component_closes_and_hashes_without_an_event() {
    let prefix = "/logs/drp";
    let mut h = build_with_log_file(prefix, 1024, true);
    h.send_com(&[9, 9]);
    h.run();
    let name = format!("{prefix}_2_100_000042.com");
    assert!(h.comp.is_file_open());
    h.shut_down();

    assert_eq!(h.read(&name), vec![0, 2, 9, 9]);
    let crc = Crc32::hash_u32(&[0, 2, 9, 9]);
    assert_eq!(
        h.read(&format!("{name}.CRC32")),
        crc.to_be_bytes().to_vec()
    );
    // Nothing is reported.
    assert!(h.events.is_empty());
}

#[test]
fn uninitialized_logger_drops_buffers_with_a_throttled_event() {
    let mut h = build();
    for _ in 0..8 {
        h.send_com(&[1]);
    }
    h.run();
    let events = &h.events;
    // Exactly five events for eight dropped buffers.
    assert_eq!(
        events.len(),
        FILE_NOT_INITIALIZED_THROTTLE as usize
    );
    for event in events.iter() {
        assert_eq!(event.0, ID_BASE + EVENTID_FILE_NOT_INITIALIZED);
        assert_eq!(event.1, LogSeverity::WarningLo);
        assert!(event.2.is_empty(), "the event has no arguments");
    }
    assert!(!h.comp.is_file_open());
}

#[test]
fn open_error_is_emitted_once_and_the_record_is_dropped() {
    // There is no such directory.
    let prefix = "/logs/missing/x";
    let mut h = build_with_log_file(prefix, 1024, true);
    h.send_com(&[1]);
    h.send_com(&[2]);
    h.send_com(&[3]);
    h.run();
    let events = &h.events;
    assert_eq!(events.len(), 1, "one-shot latch: {events:?}");
    assert_eq!(events[0].0, ID_BASE + EVENTID_FILE_OPEN_ERROR);
    assert_eq!(events[0].1, LogSeverity::WarningHi);
    // [errornum u32][u16 len][name bytes]
    assert_eq!(
        events[0].2[..4],
        u32::from(FileStatus::DoesntExist.as_repr()).to_be_bytes()
    );
    assert!(!h.comp.is_file_open());
}

#[test]
fn close_file_command_on_a_closed_logger_still_answers_ok() {
    let mut h = build();
    h.reg_commands();
    h.send_close_cmd(1, &[]);
    h.send_close_cmd(2, &[0xFF]); // residual byte
    h.run();
    assert_eq!(
        h.regs,
        vec![ID_BASE + OPCODE_CLOSE_FILE]
    );
    assert_eq!(
        h.responses,
        vec![
            (ID_BASE + OPCODE_CLOSE_FILE, 1, CmdResponse::OK),
            (
                ID_BASE + OPCODE_CLOSE_FILE,
                2,
                CmdResponse::FormatError
            ),
        ]
    );
    // No file was ever opened, so no FileClosed event.
    assert!(h.events.is_empty());
}

#[test]
fn com_logger_unknown_opcode_answers_invalid_opcode() {
    let mut h = build();
    h.send_cmd(ID_BASE + 0x42, 3, &[]);
    h.run();
    assert_eq!(
        h.responses,
        vec![(ID_BASE + 0x42, 3, CmdResponse::InvalidOpcode)]
    );
}

#[test]
fn ping_is_echoed() {
    let mut h = build();
    h.queue.push(Message { port: 0, content: Content::Ping { key: 0xFEED } }.encode());
    h.run();
    assert_eq!(h.pings, vec![0xFEED]);
}

#[test]
fn nobody_hears_an_unconnected_ping() {
    let comp = ComLogger::new(ID_BASE);
    let mut out = Vec::new();
    comp.ping_in(0xFEED, &mut out);
    assert!(out.is_empty());
}

#[test]
fn com_in_envelope_bytes_are_byte_exact() {
    let mut h = build();
    h.send_com(&[0xDE, 0xAD]);
    assert!(h.queue[0].len() <= QUEUE_MSG_SIZE);
    assert_eq!(
        h.queue[0],
        vec![
            0x00, 0x00, 0x00, 0x01, // a packet
            0x00, 0x00, // port 0
            0x00, 0x02, // length
            0xDE, 0xAD, // the packet
            0x00, 0x00, 0x00, 0x00, // context
        ]
    );
}

#[test]
fn create_validation_writes_a_big_endian_sidecar() {
    let mut files = BTreeMap::new();
    let name = "/logs/data.bin";
    files.insert(name.to_string(), b"123456789".to_vec());
    let hash_name = format!("{name}.CRC32");
    assert_eq!(make_validation(&mut files, name, &hash_name), ValidateStatus::ValidationOk);
    assert_eq!(files[&hash_name], vec![0xCB, 0xF4, 0x39, 0x26]);
}

#[test]
fn create_validation_on_a_missing_file_reports_the_file_status() {
    let mut files = BTreeMap::new();
    let name = "/logs/nope.bin";
    assert_eq!(
        make_validation(&mut files, name, &format!("{name}.CRC32")),
        ValidateStatus::FileDoesntExist
    );
}

#[test]
fn validation_error_is_reported_as_an_event() {
    let prefix = "/logs/v";
    let mut h = build_with_log_file(prefix, 1024, true);
    h.send_com(&[1, 2]);
    h.run();
    // The file goes away behind the logger's back, so that there is nothing to make a
    // checksum of.
    h.files.remove(&format!("{prefix}_2_100_000042.com")).unwrap();
    h.send_close_cmd(1, &[]);
    h.run();

    let events = &h.events;
    assert_eq!(events.len(), 2, "validation error then FileClosed");
    assert_eq!(
        events[0].0,
        ID_BASE + EVENTID_FILE_VALIDATION_ERROR
    );
    assert_eq!(events[0].1, LogSeverity::WarningLo);
    // The status comes last.
    let args = &events[0].2;
    assert_eq!(
        args[args.len() - 4..],
        ValidateStatus::FileDoesntExist.as_repr().to_be_bytes()
    );
    assert_eq!(events[1].0, ID_BASE + EVENTID_FILE_CLOSED);
}

#[test]
fn dictionary_ids_match_the_fpp_model() {
    assert_eq!(OPCODE_CLOSE_FILE, 0x00);
    assert_eq!(EVENTID_FILE_OPEN_ERROR, 0x00);
    assert_eq!(EVENTID_FILE_WRITE_ERROR, 0x01);
    assert_eq!(EVENTID_FILE_VALIDATION_ERROR, 0x02);
    assert_eq!(EVENTID_FILE_CLOSED, 0x03);
    assert_eq!(EVENTID_FILE_NOT_INITIALIZED, 0x04);
    assert_eq!(MSG_TYPE_COM_IN, 1);
    assert_eq!(MSG_TYPE_PING_IN, 2);
    assert_eq!(MSG_TYPE_CMD_IN, 3);
}

/// A write that falls short is reported once, until one succeeds again; the arguments are
/// the status, how much was written and how much was to be, and the name.
#[test]
fn short_write_is_reported_once() {
    let mut h = build_with_log_file("/logs/s", 1024, false);
    h.room = 1;
    h.send_com(&[1, 2, 3]);
    h.send_com(&[4, 5]);
    h.run();
    assert_eq!(h.events.len(), 1);
    assert_eq!(h.events[0].0, ID_BASE + EVENTID_FILE_WRITE_ERROR);
    assert_eq!(h.events[0].1, LogSeverity::WarningHi);
    let name = "/logs/s_2_100_000042.com";
    let mut args = vec![0, 0, 0, 0, 0, 0, 0, 1, 0, 0, 0, 3, 0, name.len() as u8];
    args.extend_from_slice(name.as_bytes());
    assert_eq!(h.events[0].2, args);
    h.room = 10;
    h.send_com(&[6]);
    h.run();
    h.room = 0;
    h.send_com(&[7]);
    h.run();
    assert_eq!(h.events.len(), 2);
}

/// A logger that is set up later logs from then on.
#[test]
fn a_logger_can_be_set_up_later() {
    let mut h = build();
    h.send_com(&[1]);
    h.run();
    assert_eq!(h.events.len(), 1);
    h.comp.init_log_file(b"/logs/later", 64, false);
    h.send_com(&[2, 3]);
    h.run();
    assert!(h.comp.is_file_open());
    assert_eq!(h.comp.file_name(), b"/logs/later_2_101_000042.com".to_vec());
    assert_eq!(h.read("/logs/later_2_101_000042.com"), vec![2, 3]);
}

/// A long file is read in chunks, and its checksum is that of the whole.
#[test]
fn long_files_are_read_in_chunks() {
    let content: Vec<u8> = (0..1000u32).map(|i| (i * 7) as u8).collect();
    let mut files = BTreeMap::new();
    files.insert("a".to_string(), content.clone());
    assert_eq!(make_validation(&mut files, "a", "b"), ValidateStatus::ValidationOk);
    assert_eq!(files["b"], Crc32::hash_u32(&content).to_be_bytes().to_vec());

    // A file that goes on where it should have ended has no checksum.
    let mut hash = FileHash::new(0);
    while hash.wants_more() {
        hash.chunk(&[1]);
    }
    assert_eq!(hash.digest(), Err(FileStatus::BadSize));
}

/// What the outcomes of file operations mean, for the file and for its checksum file.
#[test]
fn outcomes_are_told_apart() {
    let pairs = [
        (FileStatus::OpOk, ValidateStatus::ValidationOk, ValidateStatus::ValidationOk),
        (
            FileStatus::DoesntExist,
            ValidateStatus::FileDoesntExist,
            ValidateStatus::ValidationFileDoesntExist,
        ),
        (FileStatus::NoSpace, ValidateStatus::NoSpace, ValidateStatus::NoSpace),
        (
            FileStatus::NoPermission,
            ValidateStatus::FileNoPermission,
            ValidateStatus::ValidationFileNoPermission,
        ),
        (
            FileStatus::BadSize,
            ValidateStatus::FileBadSize,
            ValidateStatus::ValidationFileBadSize,
        ),
        (FileStatus::NotOpened, ValidateStatus::OtherError, ValidateStatus::OtherError),
    ];
    for (status, file, hash_file) in pairs {
        assert_eq!(translate_status(status, StatusFileType::File), file);
        assert_eq!(translate_status(status, StatusFileType::HashFile), hash_file);
    }
    assert_eq!(write_hash(FileStatus::OpOk, 3, 4), FileStatus::BadSize);
    assert_eq!(write_hash(FileStatus::NoSpace, 3, 4), FileStatus::NoSpace);
    assert_eq!(
        create_validation(FileStatus::OpOk, FileStatus::BadSize),
        ValidateStatus::ValidationFileBadSize
    );
}

/// A message of a type that there is none of, or cut short, is an error.
#[test]
fn bad_logger_messages_are_errors() {
    let mut h = build();
    let now = h.now();
    let mut out = Vec::new();
    assert_eq!(h.comp.dispatch_message(9, &[0, 0], &now, &mut out), MsgDispatchStatus::Error);
    assert_eq!(h.comp.dispatch_message(2, &[0, 0, 1], &now, &mut out), MsgDispatchStatus::Error);
    assert!(out.is_empty());
}
