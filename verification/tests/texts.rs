//! The texts of events.
use fprime_svc::active_rate_group::RateGroupEvent;
use fprime_svc::buffer_manager::BufferManagerEvent;
use fprime_svc::ccsds::apid_manager::ApidManagerEvent;
use fprime_svc::ccsds::space_packet_deframer::SpacePacketDeframerEvent;
use fprime_svc::ccsds::space_packet_framer::no_buffer_available_text;
use fprime_svc::ccsds::tc_deframer::TcDeframerEvent;
use fprime_svc::cmd_dispatcher::dictionary::DispatcherEvent;
use fprime_svc::cmd_sequencer::{FileReadStage, SeqMode, SequencerEvent};
use fprime_svc::com_logger::dictionary::LoggerEvent;
use fprime_svc::com_queue::types::{ComQueueEvent, QueueType};
use fprime_svc::fw::bytes::{DeserialStatus, SerializeStatus};
use fprime_svc::fw::decimal;
use fprime_svc::fw::text;
use fprime_svc::fw::time::TimeBase;
use fprime_svc::fw::types::CmdResponse;

fn read(text: Vec<u8>) -> String {
    String::from_utf8(text).unwrap()
}

#[test]
fn numbers_are_written_as_usual() {
    for n in [0u32, 9, 10, 15, 16, 255, 4096, 123_456_789, 0xDEAD_BEEF, u32::MAX] {
        let mut out = text::begin("n=");
        text::push_number(&mut out, n as u64);
        text::push_words(&mut out, " ");
        text::push_upper_hex(&mut out, n);
        text::push_words(&mut out, " ");
        text::push_lower_hex(&mut out, n);
        assert_eq!(read(out), format!("n={n} {n:X} {n:x}"));
    }
    for n in [0i32, 1, -1, 42, -42, i32::MAX, i32::MIN] {
        assert_eq!(read(decimal::to_signed(n)), format!("{n}"));
    }
    for n in [0u64, 10, u32::MAX as u64 + 1, u64::MAX] {
        assert_eq!(read(decimal::to_long_digits(n)), format!("{n}"));
    }
}

#[test]
fn rate_group_texts() {
    assert_eq!(read(RateGroupEvent::RateGroupStarted.text()), "Rate group started.");
    assert_eq!(
        read(RateGroupEvent::RateGroupCycleSlip { cycle: 17 }.text()),
        "Rate group cycle slipped on cycle 17"
    );
    assert_eq!(
        read(RateGroupEvent::RateGroupTimeGetError { status: 2 }.text()),
        "Rate group failed to read cycle end time with status 2"
    );
}

#[test]
fn buffer_manager_texts() {
    assert_eq!(
        read(BufferManagerEvent::NoBuffsAvailable { size: 5_000_000_000 }.text()),
        "No available buffers of size 5000000000"
    );
    assert_eq!(
        read(BufferManagerEvent::NullEmptyBuffer.text()),
        "Received null pointer and zero size buffer"
    );
}

#[test]
fn ccsds_texts() {
    assert_eq!(
        read(ApidManagerEvent::UnexpectedSequenceCount { transmitted: 7, expected: 3 }.text()),
        "Unexpected sequence count received. Packets may have been dropped. Transmitted: 7 | Expected on board: 3"
    );
    assert_eq!(
        read(SpacePacketDeframerEvent::InvalidPacket.text()),
        "Malformed packet received refusing to deframe"
    );
    assert_eq!(
        read(SpacePacketDeframerEvent::InvalidLength { transmitted: 100, actual: 12 }.text()),
        "Invalid length received. Header specified packet byte size of 100 | Actual received data length: 12"
    );
    assert_eq!(
        read(no_buffer_available_text()),
        "Failed to allocate a packet buffer: packet dropped"
    );
    assert_eq!(
        read(TcDeframerEvent::InvalidPacket.text()),
        "Invalid packet received refusing to deframe"
    );
    assert_eq!(
        read(TcDeframerEvent::InvalidSpacecraftId { transmitted: 1, configured: 68 }.text()),
        "Invalid Spacecraft ID Received. Received: 1 | Deframer configured with: 68"
    );
    assert_eq!(
        read(TcDeframerEvent::InvalidFrameLength { transmitted: 20, actual: 19 }.text()),
        "Not enough data received. Header length specified: 20 | Received data length: 19"
    );
    assert_eq!(
        read(TcDeframerEvent::InvalidVcId { transmitted: 4, configured: 5 }.text()),
        "Invalid Virtual Channel ID Received. Header token specified: 4 | Deframer configured with: 5"
    );
    assert_eq!(
        read(TcDeframerEvent::InvalidCrc { computed: 11, transmitted: 22 }.text()),
        "Invalid checksum received. Trailer specified: 11 | Computed on board: 22"
    );
}

#[test]
fn dispatcher_texts() {
    let op_code = 0x10AB;
    let cases: Vec<(DispatcherEvent, &str)> = vec![
        (
            DispatcherEvent::OpCodeRegistered { op_code, port: 2, slot: 9 },
            "Opcode 0x10AB registered to port 2 slot 9",
        ),
        (DispatcherEvent::OpCodeDispatched { op_code, port: 2 }, "Opcode 0x10AB dispatched to port 2"),
        (DispatcherEvent::OpCodeCompleted { op_code }, "Opcode 0x10AB completed"),
        (
            DispatcherEvent::OpCodeError { op_code, error: CmdResponse::ExecutionError },
            "Opcode 0x10AB completed with error ExecutionError",
        ),
        (
            DispatcherEvent::MalformedCommand { status: DeserialStatus::BufferEmpty },
            "Received malformed command packet. Status: BufferEmpty",
        ),
        (
            DispatcherEvent::MalformedCommand { status: DeserialStatus::FormatError },
            "Received malformed command packet. Status: FormatError",
        ),
        (
            DispatcherEvent::MalformedCommand { status: DeserialStatus::SizeMismatch },
            "Received malformed command packet. Status: SizeMismatch",
        ),
        (
            DispatcherEvent::MalformedCommand { status: DeserialStatus::TypeMismatch },
            "Received malformed command packet. Status: TypeMismatch",
        ),
        (DispatcherEvent::InvalidCommand { op_code }, "Invalid opcode 0x10AB received"),
        (
            DispatcherEvent::TooManyCommands { op_code },
            "Too many outstanding commands. opcode=0x10AB",
        ),
        (DispatcherEvent::NoOpReceived, "Received a NO-OP command"),
        (
            DispatcherEvent::NoOpStringReceived { message: b"hi".to_vec() },
            "Received a NO-OP string=hi",
        ),
        (
            DispatcherEvent::TestCmd1Args { arg1: -3, arg2: 1.5f32.to_bits(), arg3: 9 },
            "TEST_CMD_1 args: I32: -3, F32: 1.5, U8: 9",
        ),
        (
            DispatcherEvent::OpCodeReregistered { op_code, port: 2 },
            "Opcode 0x10AB is already registered to port 2",
        ),
        (
            DispatcherEvent::CommandDroppedQueueOverflow { op_code, context: 6 },
            "Opcode 0x10AB was dropped due to buffer overflow and not processed. Context 6",
        ),
    ];
    for (event, expected) in cases {
        assert_eq!(read(event.text(1.5f32.to_string().as_bytes())), expected);
    }
}

#[test]
fn com_queue_texts() {
    assert_eq!(
        read(ComQueueEvent::QueueOverflow { queue_type: QueueType::ComQueue, index: 1 }.text()),
        "The COM_QUEUE queue at index 1 overflowed"
    );
    assert_eq!(
        read(ComQueueEvent::QueueOverflow { queue_type: QueueType::BufferQueue, index: 0 }.text()),
        "The BUFFER_QUEUE queue at index 0 overflowed"
    );
    assert_eq!(
        read(
            ComQueueEvent::QueuePriorityChanged {
                queue_type: QueueType::BufferQueue,
                index: 0,
                priority: 2,
            }
            .text()
        ),
        "BufferQueue 0 priority changed to 2"
    );
}

#[test]
fn com_logger_texts() {
    let file = b"/log/a.com".to_vec();
    let validation_file = b"/log/a.com.CRC32".to_vec();
    let cases: Vec<(LoggerEvent, &str)> = vec![
        (
            LoggerEvent::FileOpenError { errornum: 3, file: file.clone() },
            "Error 3 opening file /log/a.com",
        ),
        (
            LoggerEvent::FileWriteError {
                errornum: 4,
                bytes_written: 5,
                bytes_to_write: 6,
                file: file.clone(),
            },
            "Error 4 while writing 5 of 6 bytes to /log/a.com",
        ),
        (
            LoggerEvent::FileValidationError { validation_file, file: file.clone(), status: 9 },
            "The ComLogger failed to create a validation file /log/a.com.CRC32 for /log/a.com with error 9.",
        ),
        (LoggerEvent::FileClosed { file }, "File /log/a.com closed successfully."),
        (
            LoggerEvent::FileNotInitialized,
            "Could not open ComLogger file. File not initialized",
        ),
    ];
    for (event, expected) in cases {
        assert_eq!(read(event.text()), expected);
    }
}

#[test]
fn sequencer_texts() {
    let cases = vec![
        (SequencerEvent::SequenceLoaded, "Loaded sequence s.bin"),
        (SequencerEvent::SequenceCanceled, "Sequence file canceled: s.bin"),
        (SequencerEvent::FileReadError, "Error reading sequence file s.bin"),
        (
            SequencerEvent::FileInvalid { stage: FileReadStage::ReadSeqCrc, error: -2 },
            "Sequence file s.bin invalid. Stage: ReadSeqCrc Error: -2",
        ),
        (
            SequencerEvent::RecordInvalid { record_number: 1, error: 4 },
            "Sequence file s.bin: Record 1 invalid. Err: 4",
        ),
        (SequencerEvent::FileSizeError { size: 9000 }, "Sequence file s.bin too large. Size: 9000"),
        (SequencerEvent::FileNotFound, "Sequence file not found: s.bin"),
        (
            SequencerEvent::FileCrcFailure { stored: 0xAB, computed: 0xCD01 },
            "Sequence file s.bin had invalid CRC. Stored 0xab, Computed 0xcd01.",
        ),
        (
            SequencerEvent::CommandComplete { record_number: 2, op_code: 77 },
            "Sequence file s.bin: Command 2 (opcode 77) complete",
        ),
        (SequencerEvent::SequenceComplete, "Sequence file complete: s.bin"),
        (
            SequencerEvent::CommandError { record_number: 2, op_code: 77, error_status: 4 },
            "Sequence file s.bin: Command 2 (opcode 77) completed with error 4",
        ),
        (SequencerEvent::InvalidMode, "Invalid mode"),
        (
            SequencerEvent::RecordMismatch { header_records: 3, extra_bytes: 5 },
            "Sequence file s.bin header records mismatch: 3 in header, found 5 extra bytes.",
        ),
        (
            SequencerEvent::TimeBaseMismatch {
                current: TimeBase::TbWorkstationTime,
                seq: TimeBase::TbDontCare,
            },
            "Sequence file s.bin: Current time base doesn't match sequence time: base: 2 seq: 65535",
        ),
        (
            SequencerEvent::TimeContextMismatch { current: 1, seq: 2 },
            "Sequence file s.bin: Current time context doesn't match sequence context: base: 1 seq: 2",
        ),
        (SequencerEvent::PortSequenceStarted, "Local request for sequence started: s.bin"),
        (
            SequencerEvent::UnexpectedCompletion { op_code: 8 },
            "Command complete status received while no sequences active. Opcode: 8",
        ),
        (
            SequencerEvent::ModeSwitched { mode: SeqMode::Step },
            "Sequencer switched to Step step mode",
        ),
        (SequencerEvent::NoSequenceActive, "No sequence active."),
        (SequencerEvent::SequenceValid, "Sequence is valid: s.bin"),
        (SequencerEvent::SequenceTimeout { command: 6 }, "Sequence s.bin timed out on command 6"),
        (SequencerEvent::CmdStepped { command: 6 }, "Sequence s.bin command 6 stepped"),
        (SequencerEvent::CmdStarted, "Sequence started: s.bin"),
        (
            SequencerEvent::JoinWaiting { record_number: 4, op_code: 5 },
            "Start waiting for sequence file s.bin: Command 4 (opcode 5) to complete",
        ),
        (
            SequencerEvent::JoinWaitingNotComplete,
            "Still waiting for sequence file to complete",
        ),
        (SequencerEvent::NoRecords, "Sequence file has no records. Ignoring: s.bin"),
    ];
    for (event, expected) in cases {
        assert_eq!(read(event.text(b"s.bin")), expected);
    }
}

#[test]
fn a_deserialization_keeps_its_number() {
    for status in [
        SerializeStatus::DeserBufferEmpty,
        SerializeStatus::DeserFormatError,
        SerializeStatus::DeserSizeMismatch,
        SerializeStatus::DeserTypeMismatch,
    ] {
        assert_eq!(DeserialStatus::from_status(status).as_repr(), status.as_repr());
    }
    assert_eq!(DeserialStatus::from_status(SerializeStatus::NoRoomLeft), DeserialStatus::FormatError);
}
