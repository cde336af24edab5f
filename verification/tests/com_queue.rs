//! Prioritized downlink queues.
use fprime_svc::com_queue::component::ComQueue;
use fprime_svc::com_queue::messages::{Content, Message};
use fprime_svc::com_queue::types::{
    Action, QueueConfigurationTable, QueueType, CHANID_BUFF_QUEUE_DEPTH, CHANID_COM_QUEUE_DEPTH,
    EVENTID_QUEUE_OVERFLOW, EVENTID_QUEUE_PRIORITY_CHANGED, MSG_SIZE, OPCODE_FLUSH_ALL_QUEUES,
    OPCODE_FLUSH_QUEUE, OPCODE_SET_QUEUE_PRIORITY,
};
use fprime_svc::fw::buffer::{Buffer, NO_CONTEXT};
use fprime_svc::fw::queue::{QueueMode, QueueOverflowMode};
use fprime_svc::fw::types::{Apid, CmdResponse, FrameContext, MsgDispatchStatus, Success};

const ID_BASE: u32 = 0x400;

/// What the component did, output by output.
#[derive(Default)]
struct Recorder {
    data_out: Vec<(Vec<u8>, FrameContext)>,
    buffer_returns: Vec<Vec<u8>>,
    events: Vec<(u32, Vec<u8>)>,
    tlm: Vec<(u32, Vec<u8>)>,
    responses: Vec<(u32, u32, CmdResponse)>,
    regs: Vec<u32>,
}

impl Recorder {
    fn take(&mut self, comp: &ComQueue, out: Vec<Action>) {
        for action in out {
            match action {
                Action::Event(event) => {
                    self.events.push((comp.id_base() + event.id(), event.args()));
                }
                Action::Tlm { id, value } => self.tlm.push((comp.id_base() + id, value)),
                Action::CmdReg { op_code } => self.regs.push(op_code),
                Action::CmdResponse { op_code, cmd_seq, response } => {
                    self.responses.push((op_code, cmd_seq, response));
                }
                Action::DataOut { buffer, context } => {
                    self.data_out.push((buffer.to_vec(), context));
                }
                Action::BufferReturnOut { buffer, .. } => {
                    self.buffer_returns.push(buffer.to_vec());
                }
            }
        }
    }
}

/// All queues hold two entries and have the same priority.
fn default_table() -> QueueConfigurationTable {
    let mut table = QueueConfigurationTable::default();
    for entry in table.entries.iter_mut() {
        entry.depth = 2;
    }
    table
}

fn build_at(id_base: u32, table: &QueueConfigurationTable) -> (ComQueue, Recorder) {
    let mut comp = ComQueue::new(id_base);
    assert!(!comp.is_configured());
    assert!(table.is_valid());
    comp.configure(table);
    assert!(comp.is_configured());
    (comp, Recorder::default())
}

fn build(table: &QueueConfigurationTable) -> (ComQueue, Recorder) {
    build_at(0, table)
}

/// A packet that starts with its descriptor.
fn com_packet(descriptor: u16, extra: &[u8]) -> Vec<u8> {
    let mut bytes = descriptor.to_be_bytes().to_vec();
    bytes.extend_from_slice(extra);
    bytes
}

fn file_buffer(tag: u8) -> Buffer {
    let descriptor = Apid::FwPacketFile.as_repr().to_be_bytes();
    Buffer::from_storage(vec![descriptor[0], descriptor[1], tag, 0], NO_CONTEXT)
}

fn send_com(comp: &mut ComQueue, rec: &mut Recorder, port: i16, descriptor: u16, extra: &[u8]) {
    let data = com_packet(descriptor, extra);
    assert!(comp.takes_packet(port, &data));
    let mut out = Vec::new();
    comp.com_packet_queue_in(port, &data, &mut out);
    rec.take(comp, out);
}

fn send_buffer(comp: &mut ComQueue, rec: &mut Recorder, port: i16, buffer: Buffer) {
    assert!(comp.takes_buffer(port, &buffer));
    let mut out = Vec::new();
    comp.buffer_queue_in(port, buffer, &mut out);
    rec.take(comp, out);
}

fn send_status(comp: &mut ComQueue, rec: &mut Recorder, condition: Success) {
    assert!(comp.takes_status(condition));
    let mut out = Vec::new();
    comp.com_status_in(condition, &mut out);
    rec.take(comp, out);
}

/// Gives back what was sent last.
fn return_last(comp: &mut ComQueue, rec: &mut Recorder) {
    let (bytes, context) = rec.data_out.last().unwrap().clone();
    assert!(comp.is_outstanding());
    assert!(comp.takes_return(&context));
    let mut out = Vec::new();
    comp.data_return_in(Buffer::from_storage(bytes, NO_CONTEXT), &context, &mut out);
    rec.take(comp, out);
    assert!(!comp.is_outstanding());
}

fn run(comp: &mut ComQueue, rec: &mut Recorder) {
    let mut out = Vec::new();
    comp.run_in(&mut out);
    rec.take(comp, out);
}

fn run_cmd(comp: &mut ComQueue, rec: &mut Recorder, opcode: u32, seq: u32, args: &[u8]) {
    assert!(comp.takes_command(ID_BASE + opcode, args));
    let mut out = Vec::new();
    comp.cmd_in(ID_BASE + opcode, seq, args, &mut out);
    rec.take(comp, out);
}

/// Hands over a queued message that brings no buffer.
fn dispatch(comp: &mut ComQueue, rec: &mut Recorder, message: &[u8]) -> MsgDispatchStatus {
    assert!(message.len() <= MSG_SIZE);
    let msg_type = i32::from_be_bytes([message[0], message[1], message[2], message[3]]);
    let claimed = Buffer::empty();
    if let Some(decoded) = Message::decode(msg_type, &message[4..]) {
        assert!(comp.takes_message(&decoded, &claimed));
    }
    let mut out = Vec::new();
    let status = comp.dispatch_message(msg_type, &message[4..], claimed, &mut out);
    rec.take(comp, out);
    status
}

/// Nothing transmits before the first SUCCESS (initial WAITING state —
/// Without the ComStub handshake nothing is ever sent).
#[test]
fn waiting_until_first_success() {
    let (mut comp, mut rec) = build(&default_table());
    send_com(&mut comp, &mut rec, 0, Apid::FwPacketTelem.as_repr(), b"tlm");
    assert!(rec.data_out.is_empty());
    send_status(&mut comp, &mut rec, Success::Success);
    let out = &rec.data_out;
    assert_eq!(out.len(), 1);
    assert_eq!(
        out[0].0,
        com_packet(Apid::FwPacketTelem.as_repr(), b"tlm")
    );
    assert_eq!(out[0].1.apid, Apid::FwPacketTelem);
    assert_eq!(out[0].1.com_queue_index, 0);
}

/// One outstanding send: a queued second message waits for the next
/// SUCCESS.
#[test]
fn one_outstanding_send() {
    let (mut comp, mut rec) = build(&default_table());
    send_status(&mut comp, &mut rec, Success::Success); // READY, nothing to send
    send_com(&mut comp, &mut rec, 0, 1, b"a"); // READY -> sends immediately
    assert_eq!(rec.data_out.len(), 1);
    send_com(&mut comp, &mut rec, 0, 1, b"b"); // WAITING -> queued
    assert_eq!(rec.data_out.len(), 1);
    // Return the outstanding buffer + status.
    return_last(&mut comp, &mut rec);
    send_status(&mut comp, &mut rec, Success::Success);
    assert_eq!(rec.data_out.len(), 2);
}

/// FAILURE keeps WAITING; a later SUCCESS releases the send.
#[test]
fn failure_keeps_waiting() {
    let (mut comp, mut rec) = build(&default_table());
    send_com(&mut comp, &mut rec, 0, 1, b"x");
    send_status(&mut comp, &mut rec, Success::Failure);
    assert!(rec.data_out.is_empty());
    send_status(&mut comp, &mut rec, Success::Success);
    assert_eq!(rec.data_out.len(), 1);
}

/// Priority order: lower priority values are serviced first.
#[test]
fn priority_order() {
    let mut table = default_table();
    table.entries[0].priority = 2; // com 0 last
    table.entries[1].priority = 0; // com 1 first
    table.entries[2].priority = 1; // buffer in between
    let (mut comp, mut rec) = build(&table);
    send_com(&mut comp, &mut rec, 0, 1, b"low");
    send_com(&mut comp, &mut rec, 1, 2, b"high");
    send_buffer(&mut comp, &mut rec, 0, file_buffer(9));
    // Drive three sends.
    for _ in 0..3 {
        send_status(&mut comp, &mut rec, Success::Success);
        return_last(&mut comp, &mut rec);
    }
    let out = &rec.data_out;
    assert_eq!(out.len(), 3);
    assert_eq!(out[0].1.com_queue_index, 1); // priority 0
    assert_eq!(out[1].1.com_queue_index, 2); // priority 1 (buffer queue)
    assert_eq!(out[2].1.com_queue_index, 0); // priority 2
}

/// Round-robin within an equal-priority run: com0 and com1 alternate.
#[test]
fn round_robin_within_equal_priority() {
    let mut table = default_table();
    table.entries[0].depth = 4;
    table.entries[1].depth = 4;
    table.entries[2].priority = 2; // keep the buffer queue out of the way
    let (mut comp, mut rec) = build(&table);
    for _ in 0..2 {
        send_com(&mut comp, &mut rec, 0, 1, b"q0");
        send_com(&mut comp, &mut rec, 1, 1, b"q1");
    }
    for _ in 0..4 {
        send_status(&mut comp, &mut rec, Success::Success);
        return_last(&mut comp, &mut rec);
    }
    let indices: Vec<_> = rec
        .data_out
        .iter()
        .map(|(_, c)| c.com_queue_index)
        .collect();
    assert_eq!(indices, vec![0, 1, 0, 1]); // alternating
}

/// QueueOverflow fires once per queue until a successful send clears the
/// throttle; the event args are [queueType u8][index i16 BE].
#[test]
fn overflow_event_throttled_until_send() {
    let mut table = default_table();
    table.entries[0].depth = 1;
    let (mut comp, mut rec) = build(&table);
    send_com(&mut comp, &mut rec, 0, 1, b"1"); // fills the queue
    send_com(&mut comp, &mut rec, 0, 1, b"2"); // overflow -> event
    send_com(&mut comp, &mut rec, 0, 1, b"3"); // overflow -> throttled
    assert_eq!(
        rec.events,
        vec![(EVENTID_QUEUE_OVERFLOW, vec![0x00, 0x00, 0x00])]
    );
    // A successful send clears the throttle.
    send_status(&mut comp, &mut rec, Success::Success);
    return_last(&mut comp, &mut rec);
    send_com(&mut comp, &mut rec, 0, 1, b"4"); // queued (WAITING)
    send_com(&mut comp, &mut rec, 0, 1, b"5"); // overflow -> new event
    assert_eq!(rec.events.len(), 2);
}

/// Buffer queue DROP_NEWEST full: the NEW buffer is returned.
#[test]
fn buffer_queue_drop_newest_returns_new_buffer() {
    let mut table = default_table();
    table.entries[2].depth = 1;
    let (mut comp, mut rec) = build(&table);
    send_buffer(&mut comp, &mut rec, 0, file_buffer(1));
    send_buffer(&mut comp, &mut rec, 0, file_buffer(2)); // rejected
    let returns = &rec.buffer_returns;
    assert_eq!(returns.len(), 1);
    assert_eq!(returns[0][2], 2); // the new one came back
    assert_eq!(rec.events[0].0, EVENTID_QUEUE_OVERFLOW);
    assert_eq!(rec.events[0].1, vec![0x01, 0x00, 0x00]);
}

/// Buffer queue DROP_OLDEST full: the OLDEST buffer is returned BEFORE
/// the overwrite.
#[test]
fn buffer_queue_drop_oldest_preemptively_returns_oldest() {
    let mut table = default_table();
    table.entries[2].depth = 1;
    table.entries[2].overflow_mode = QueueOverflowMode::DropOldest;
    let (mut comp, mut rec) = build(&table);
    send_buffer(&mut comp, &mut rec, 0, file_buffer(1));
    send_buffer(&mut comp, &mut rec, 0, file_buffer(2));
    let returns = &rec.buffer_returns;
    assert_eq!(returns.len(), 1);
    assert_eq!(returns[0][2], 1); // oldest returned
    // The new buffer is the one that transmits.
    send_status(&mut comp, &mut rec, Success::Success);
    assert_eq!(rec.data_out[0].0[2], 2);
    // Overflow event emitted for the pre-emptive drop.
    assert_eq!(rec.events.len(), 1);
}

/// dataReturnIn routes buffer-queue returns to bufferReturnOut and drops
/// com returns (storage recycled).
#[test]
fn data_return_routing() {
    let (mut comp, mut rec) = build(&default_table());
    // Buffer-queue send/return.
    send_buffer(&mut comp, &mut rec, 0, file_buffer(7));
    send_status(&mut comp, &mut rec, Success::Success);
    assert_eq!(rec.data_out.len(), 1);
    return_last(&mut comp, &mut rec);
    assert_eq!(rec.buffer_returns.len(), 1);
    assert_eq!(rec.buffer_returns[0][2], 7);
    // Com send/return: no bufferReturnOut, storage recycled.
    send_com(&mut comp, &mut rec, 0, 1, b"c");
    send_status(&mut comp, &mut rec, Success::Success);
    assert_eq!(rec.data_out.len(), 2);
    return_last(&mut comp, &mut rec);
    assert_eq!(rec.buffer_returns.len(), 1); // unchanged
    assert!(comp.has_spare());
}

/// The descriptor of the queued data becomes the context APID.
#[test]
fn descriptor_sets_context_apid() {
    let (mut comp, mut rec) = build(&default_table());
    send_com(&mut comp, &mut rec, 0, Apid::FwPacketLog.as_repr(), b"evt");
    send_status(&mut comp, &mut rec, Success::Success);
    assert_eq!(rec.data_out[0].1.apid, Apid::FwPacketLog);
}

/// run emits comQueueDepth/buffQueueDepth high-water arrays (raw u32 BE
/// elements, no length prefix) and clears the marks.
#[test]
fn run_emits_high_water_telemetry() {
    let (mut comp, mut rec) = build(&default_table());
    send_com(&mut comp, &mut rec, 0, 1, b"a");
    send_com(&mut comp, &mut rec, 0, 1, b"b");
    send_com(&mut comp, &mut rec, 1, 1, b"c");
    send_buffer(&mut comp, &mut rec, 0, file_buffer(1));
    run(&mut comp, &mut rec);
    {
        let tlm = &rec.tlm;
        assert_eq!(
            *tlm,
            vec![
                (
                    CHANID_COM_QUEUE_DEPTH,
                    vec![0, 0, 0, 2, 0, 0, 0, 1] // [2, 1] u32 BE
                ),
                (CHANID_BUFF_QUEUE_DEPTH, vec![0, 0, 0, 1]),
            ]
        );
    }
    rec.tlm.clear();
    // Marks were cleared.
    run(&mut comp, &mut rec);
    let tlm = &rec.tlm;
    assert_eq!(tlm[0].1, vec![0, 0, 0, 0, 0, 0, 0, 0]);
    assert_eq!(tlm[1].1, vec![0, 0, 0, 0]);
}

/// FLUSH_QUEUE drains a buffer queue, returning ownership.
#[test]
fn flush_queue_returns_buffers() {
    let (mut comp, mut rec) = build_at(ID_BASE, &default_table());
    send_buffer(&mut comp, &mut rec, 0, file_buffer(1));
    send_buffer(&mut comp, &mut rec, 0, file_buffer(2));
    // FLUSH_QUEUE(BUFFER_QUEUE, 0): [u8 1][i16 0]
    run_cmd(&mut comp, &mut rec, OPCODE_FLUSH_QUEUE, 1, &[1, 0, 0]);
    assert_eq!(rec.buffer_returns.len(), 2);
    assert_eq!(
        rec.responses.last().unwrap().2,
        CmdResponse::OK
    );
    // Nothing left to send.
    send_status(&mut comp, &mut rec, Success::Success);
    assert!(rec.data_out.is_empty());
}

/// FLUSH_QUEUE with an out-of-range index: ValidationError.
#[test]
fn flush_queue_validation_error() {
    let (mut comp, mut rec) = build_at(ID_BASE, &default_table());
    run_cmd(&mut comp, &mut rec, OPCODE_FLUSH_QUEUE, 2, &[0, 0, 9]); // com index 9
    assert_eq!(
        rec.responses[0].2,
        CmdResponse::ValidationError
    );
}

/// Invalid QueueType enum value: ValidationError; short args:
/// FormatError; residual bytes: FormatError.
#[test]
fn flush_queue_arg_errors() {
    let (mut comp, mut rec) = build_at(ID_BASE, &default_table());
    run_cmd(&mut comp, &mut rec, OPCODE_FLUSH_QUEUE, 1, &[7, 0, 0]); // bad enum
    run_cmd(&mut comp, &mut rec, OPCODE_FLUSH_QUEUE, 2, &[0]); // short
    run_cmd(&mut comp, &mut rec, OPCODE_FLUSH_QUEUE, 3, &[0, 0, 0, 0xEE]); // residual
    let responses = &rec.responses;
    assert_eq!(responses[0].2, CmdResponse::ValidationError);
    assert_eq!(responses[1].2, CmdResponse::FormatError);
    assert_eq!(responses[2].2, CmdResponse::FormatError);
}

/// FLUSH_ALL_QUEUES drains everything.
#[test]
fn flush_all_queues() {
    let (mut comp, mut rec) = build_at(ID_BASE, &default_table());
    send_com(&mut comp, &mut rec, 0, 1, b"a");
    send_com(&mut comp, &mut rec, 1, 1, b"b");
    send_buffer(&mut comp, &mut rec, 0, file_buffer(3));
    run_cmd(&mut comp, &mut rec, OPCODE_FLUSH_ALL_QUEUES, 1, &[]);
    assert_eq!(rec.buffer_returns.len(), 1);
    assert_eq!(rec.responses[0].2, CmdResponse::OK);
    send_status(&mut comp, &mut rec, Success::Success);
    assert!(rec.data_out.is_empty());
}

/// SET_QUEUE_PRIORITY re-orders servicing and emits the event.
#[test]
fn set_queue_priority_reorders() {
    let (mut comp, mut rec) = build_at(ID_BASE, &default_table());
    // Raise com0's priority value so com1 goes first... initially all 0
    // (FIFO order com0 first). Set com0 to priority 2:
    // SET_QUEUE_PRIORITY(COM_QUEUE, 0, 2) = [u8 0][i16 0][i16 2]
    run_cmd(&mut comp, &mut rec, OPCODE_SET_QUEUE_PRIORITY, 1, &[0, 0, 0, 0, 2]);
    assert_eq!(rec.responses[0].2, CmdResponse::OK);
    assert_eq!(
        rec.events,
        vec![(
            ID_BASE + EVENTID_QUEUE_PRIORITY_CHANGED,
            vec![0x00, 0x00, 0x00, 0x00, 0x02] // [type u8][idx i16][prio i16]
        )]
    );
    send_com(&mut comp, &mut rec, 0, 1, b"q0");
    send_com(&mut comp, &mut rec, 1, 1, b"q1");
    send_status(&mut comp, &mut rec, Success::Success);
    // com1 (still priority 0) is serviced before com0 (now priority 2).
    assert_eq!(rec.data_out[0].1.com_queue_index, 1);
}

/// SET_QUEUE_PRIORITY validation errors.
#[test]
fn set_queue_priority_validation_errors() {
    let (mut comp, mut rec) = build_at(ID_BASE, &default_table());
    run_cmd(&mut comp, &mut rec, OPCODE_SET_QUEUE_PRIORITY, 1, &[0, 0, 9, 0, 0]); // bad index
    run_cmd(&mut comp, &mut rec, OPCODE_SET_QUEUE_PRIORITY, 2, &[0, 0, 0, 0, 9]); // bad priority
    let responses = &rec.responses;
    assert_eq!(responses[0].2, CmdResponse::ValidationError);
    assert_eq!(responses[1].2, CmdResponse::ValidationError);
}

/// Unknown opcode: InvalidOpcode.
#[test]
fn unknown_opcode() {
    let (mut comp, mut rec) = build_at(ID_BASE, &default_table());
    run_cmd(&mut comp, &mut rec, 0xEE, 1, &[]);
    assert_eq!(
        rec.responses[0].2,
        CmdResponse::InvalidOpcode
    );
}

/// reg_commands registers all three opcodes offset by id_base.
#[test]
fn reg_commands_registers_opcodes() {
    let (mut comp, mut rec) = build_at(ID_BASE, &default_table());
    let mut out = Vec::new();
    comp.reg_commands(&mut out);
    rec.take(&comp, out);
    assert_eq!(
        rec.regs,
        vec![ID_BASE, ID_BASE + 1, ID_BASE + 2]
    );
}

/// A queued packet is its type, the port, the length and bytes, and the context.
#[test]
fn com_packet_envelope_bytes_are_byte_exact() {
    let message = Message {
        port: 1,
        content: Content::ComPacket { data: com_packet(0x0001, &[0xAB]), context: 0x01020304 },
    };
    assert_eq!(
        message.encode(),
        vec![
            0x00, 0x00, 0x00, 0x02, // a packet
            0x00, 0x01, // port 1
            0x00, 0x03, // length
            0x00, 0x01, 0xAB, // descriptor + byte
            0x01, 0x02, 0x03, 0x04, // context
        ]
    );
}

/// A buffer that finds the message queue full goes back where it came from.
#[test]
fn buffer_queue_in_hook_returns_on_full_message_queue() {
    let (comp, mut rec) = build(&default_table());
    let mut queued = vec![file_buffer(1)];
    let second = file_buffer(2);
    if queued.is_empty() {
        queued.push(second);
    } else {
        let mut out = Vec::new();
        comp.buffer_queue_in_overflow(0, second, &mut out);
        rec.take(&comp, out);
    }
    let returns = &rec.buffer_returns;
    assert_eq!(returns.len(), 1);
    assert_eq!(returns[0][2], 2);
}

/// A packet and a status, both as queued messages.
#[test]
fn com_queue_active_lifecycle_end_to_end() {
    let (mut comp, mut rec) = build(&default_table());
    let data = com_packet(Apid::FwPacketTelem.as_repr(), b"live");
    let queue = vec![
        Message { port: 0, content: Content::ComPacket { data, context: 0 } }.encode(),
        Message { port: 0, content: Content::ComStatus { condition: Success::Success } }.encode(),
    ];
    for message in queue {
        assert_eq!(dispatch(&mut comp, &mut rec, &message), MsgDispatchStatus::OK);
    }
    let out = &rec.data_out;
    assert_eq!(out.len(), 1);
    assert_eq!(out[0].1.apid, Apid::FwPacketTelem);
    assert_eq!(out[0].1.com_queue_index, 0);
}

/// A report while nothing is awaited, and tables that no queue can be made from, are
/// told apart beforehand.
#[test]
fn what_is_not_taken_is_known_beforehand() {
    let (mut comp, mut rec) = build(&default_table());
    assert!(!comp.is_ready());
    send_status(&mut comp, &mut rec, Success::Success);
    assert!(comp.is_ready());
    assert!(!comp.takes_status(Success::Success));
    assert!(!comp.takes_packet(2, &com_packet(1, b"x")));
    assert!(!comp.takes_packet(-1, &com_packet(1, b"x")));
    assert!(!comp.takes_buffer(1, &file_buffer(1)));
    assert!(!comp.takes_packet(0, &vec![0x01]));

    assert!(!QueueConfigurationTable::default().is_valid());
    let mut table = default_table();
    table.entries[0].priority = 3;
    assert!(!table.is_valid());
}

/// A last-in-first-out queue sends its newest entry first.
#[test]
fn newest_first_where_so_configured() {
    let mut table = default_table();
    table.entries[0].mode = QueueMode::Lifo;
    let (mut comp, mut rec) = build(&table);
    send_com(&mut comp, &mut rec, 0, 1, b"old");
    send_com(&mut comp, &mut rec, 0, 1, b"new");
    send_status(&mut comp, &mut rec, Success::Success);
    assert_eq!(rec.data_out[0].0, com_packet(1, b"new"));
}

/// A command is one of the queued messages, and comes out as it went in.
#[test]
fn queued_messages_read_back() {
    let (mut comp, mut rec) = build_at(ID_BASE, &default_table());
    let message = Message {
        port: 0,
        content: Content::Cmd {
            op_code: ID_BASE + OPCODE_FLUSH_ALL_QUEUES,
            cmd_seq: 9,
            args: Vec::new(),
        },
    };
    assert_eq!(dispatch(&mut comp, &mut rec, &message.encode()), MsgDispatchStatus::OK);
    assert_eq!(rec.responses, vec![(ID_BASE + 1, 9, CmdResponse::OK)]);

    let message = Message { port: 0, content: Content::Run { context: 3 } };
    assert_eq!(dispatch(&mut comp, &mut rec, &message.encode()), MsgDispatchStatus::OK);
    assert_eq!(rec.tlm.len(), 2);

    // A type that there is none of, and a message cut short.
    assert_eq!(
        dispatch(&mut comp, &mut rec, &[0, 0, 0, 77, 0, 0]),
        MsgDispatchStatus::Error
    );
    assert_eq!(dispatch(&mut comp, &mut rec, &[0, 0, 0, 4, 0]), MsgDispatchStatus::Error);
}

/// A queued buffer is claimed by its number and takes its place in the queue.
#[test]
fn a_queued_buffer_is_claimed() {
    let (mut comp, mut rec) = build(&default_table());
    let message = Message { port: 0, content: Content::BufferIn { token: 12 } }.encode();
    assert_eq!(
        message,
        vec![0, 0, 0, 3, 0, 0, 0, 0, 0, 0, 0, 0, 0, 12]
    );
    let claimed = file_buffer(5);
    let decoded = Message::decode(3, &message[4..]).unwrap();
    assert!(comp.takes_message(&decoded, &claimed));
    let mut out = Vec::new();
    let status = comp.dispatch_message(3, &message[4..], claimed, &mut out);
    rec.take(&comp, out);
    assert_eq!(status, MsgDispatchStatus::OK);
    send_status(&mut comp, &mut rec, Success::Success);
    assert_eq!(rec.data_out[0].0[2], 5);
    assert_eq!(rec.data_out[0].1.com_queue_index, 2);
}

/// The two kinds of queue have numbers that read back.
#[test]
fn queue_types_read_back() {
    assert_eq!(QueueType::from_repr(0), Some(QueueType::ComQueue));
    assert_eq!(QueueType::from_repr(1), Some(QueueType::BufferQueue));
    assert_eq!(QueueType::from_repr(2), None);
    assert_eq!(QueueType::BufferQueue.as_repr(), 1);
}

/// Between two sends from one queue, a waiting queue of its priority has its turn; one that
/// is empty is passed over, and comes first when it has something again.
#[test]
fn equal_queues_take_turns_over_a_run() {
    let mut table = default_table();
    table.entries[0].depth = 8;
    table.entries[1].depth = 8;
    table.entries[2].priority = 2;
    let (mut comp, mut rec) = build(&table);
    for _ in 0..4 {
        send_com(&mut comp, &mut rec, 0, 1, b"q0");
    }
    send_com(&mut comp, &mut rec, 1, 1, b"q1");
    for turn in 0..6 {
        if turn == 3 {
            send_com(&mut comp, &mut rec, 1, 1, b"q1");
        }
        send_status(&mut comp, &mut rec, Success::Success);
        return_last(&mut comp, &mut rec);
    }
    let indices: Vec<_> = rec.data_out.iter().map(|(_, c)| c.com_queue_index).collect();
    assert_eq!(indices, vec![0, 1, 0, 1, 0, 0]);
}
