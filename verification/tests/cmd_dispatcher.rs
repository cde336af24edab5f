//! The command dispatcher, driven through its queue messages.
use fprime_svc::cmd_dispatcher::component::CmdDispatcher;
use fprime_svc::cmd_dispatcher::dictionary::{
    Action, DispatcherEvent, CHANID_COMMANDS_DISPATCHED, CHANID_COMMANDS_DROPPED,
    CHANID_COMMAND_ERRORS, EVENTID_COMMAND_DROPPED_QUEUE_OVERFLOW, EVENTID_INVALID_COMMAND,
    EVENTID_MALFORMED_COMMAND, EVENTID_NO_OP_RECEIVED, EVENTID_NO_OP_STRING_RECEIVED,
    EVENTID_OP_CODE_COMPLETED, EVENTID_OP_CODE_DISPATCHED, EVENTID_OP_CODE_ERROR,
    EVENTID_OP_CODE_REGISTERED, EVENTID_OP_CODE_REREGISTERED, EVENTID_TEST_CMD_1_ARGS,
    EVENTID_TOO_MANY_COMMANDS, SEQUENCER_TABLE_SIZE,
};
use fprime_svc::cmd_dispatcher::messages::{Content, Message, QUEUE_MSG_SIZE};
use fprime_svc::cmd_dispatcher::tracker::{SequenceTracker, SequenceTrackerEntry};
use fprime_svc::fw::types::{CmdResponse, LogSeverity, MsgDispatchStatus};
use std::collections::HashMap;

const ID_BASE: u32 = 0x100;

/// The dispatcher, and what it did, output by output.
struct Harness {
    comp: CmdDispatcher,
    targets: HashMap<i16, i16>,
    regs: Vec<u32>,
    responses: Vec<(u32, u32, CmdResponse)>,
    events: Vec<(u32, LogSeverity, Vec<u8>)>,
    text_events: Vec<(u32, String)>,
    tlm: Vec<(u32, Vec<u8>)>,
    cmds: Vec<(i16, u32, u32, Vec<u8>)>,
    seq_responses: Vec<(u32, u32, CmdResponse)>,
    keys: Vec<u32>,
}

fn build() -> Harness {
    Harness {
        comp: CmdDispatcher::new(ID_BASE),
        targets: HashMap::new(),
        regs: Vec::new(),
        responses: Vec::new(),
        events: Vec::new(),
        text_events: Vec::new(),
        tlm: Vec::new(),
        cmds: Vec::new(),
        seq_responses: Vec::new(),
        keys: Vec::new(),
    }
}

/// The text of an event; only a floating-point argument is written out here.
fn text(event: &DispatcherEvent) -> String {
    let number = match event {
        DispatcherEvent::TestCmd1Args { arg2, .. } => f32::from_bits(*arg2).to_string(),
        _ => String::new(),
    };
    String::from_utf8(event.text(number.as_bytes())).unwrap()
}

impl Harness {
    fn take(&mut self, out: Vec<Action>) {
        for action in out {
            match action {
                Action::Event(event) => {
                    let id = ID_BASE + event.id();
                    self.events.push((id, event.severity(), event.args()));
                    self.text_events.push((id, text(&event)));
                }
                Action::Tlm { id, value } => {
                    self.tlm.push((ID_BASE + id, value.to_be_bytes().to_vec()));
                }
                Action::CmdReg { op_code } => self.regs.push(op_code),
                Action::CmdResponse { op_code, cmd_seq, response } => {
                    self.responses.push((op_code, cmd_seq, response));
                }
                Action::CompCmdSend { port, op_code, cmd_seq, args } => {
                    self.cmds.push((self.targets[&port], op_code, cmd_seq, args));
                }
                Action::SeqCmdStatus { op_code, context, response, .. } => {
                    self.seq_responses.push((op_code, context, response));
                }
                Action::PingOut { key } => self.keys.push(key),
            }
        }
    }

    /// Connects the component port `port` to the input `number` of a component.
    fn connect_target(&mut self, port: i16, number: i16) {
        self.comp.connect_comp_cmd_send(port as usize);
        self.targets.insert(port, number);
    }

    fn connect_caller(&mut self, port: usize) {
        self.comp.connect_seq_cmd_status(port);
    }

    fn register(&mut self, port: i16, op_code: u32) {
        assert!(self.comp.takes_registration(port, op_code));
        let mut out = Vec::new();
        self.comp.comp_cmd_reg_in(port, op_code, &mut out);
        self.take(out);
    }

    fn reg_commands(&mut self) {
        let mut out = Vec::new();
        self.comp.reg_commands(&mut out);
        self.take(out);
    }

    /// Queues a message and has it dispatched.
    fn dispatch(&mut self, message: &Message) {
        let bytes = message.encode();
        assert!(bytes.len() <= QUEUE_MSG_SIZE);
        let msg_type = i32::from_be_bytes([bytes[0], bytes[1], bytes[2], bytes[3]]);
        let decoded = Message::decode(msg_type, &bytes[4..]).unwrap();
        assert!(self.comp.takes_message(&decoded));
        let mut out = Vec::new();
        let status = self.comp.dispatch_message(msg_type, &bytes[4..], &mut out);
        assert_eq!(status, MsgDispatchStatus::OK);
        self.take(out);
    }

    fn send_seq_cmd(&mut self, port: i16, packet: &[u8], context: u32) {
        let content = Content::SeqCmdBuff { data: packet.to_vec(), context };
        self.dispatch(&Message { port, content });
    }

    fn respond(&mut self, op_code: u32, cmd_seq: u32, response: CmdResponse) {
        let content = Content::CompCmdStat { op_code, cmd_seq, response };
        self.dispatch(&Message { port: 0, content });
    }

    fn send_own_cmd(&mut self, op_code: u32, cmd_seq: u32, args: &[u8]) {
        let content = Content::Cmd { op_code, cmd_seq, args: args.to_vec() };
        self.dispatch(&Message { port: 0, content });
    }

    fn run(&mut self) {
        self.dispatch(&Message { port: 0, content: Content::Run { context: 0 } });
    }

    fn ping(&mut self, key: u32) {
        self.dispatch(&Message { port: 0, content: Content::Ping { key } });
    }
}

/// A command packet: descriptor, opcode, arguments.
fn cmd_packet(opcode: u32, args: &[u8]) -> Vec<u8> {
    let mut packet = vec![0, 0];
    packet.extend_from_slice(&opcode.to_be_bytes());
    packet.extend_from_slice(args);
    packet
}

#[test]
fn registration_emits_diagnostic_with_insertion_slot() {
    let mut h = build();
    h.register(3, 0x500);
    h.register(7, 0x600);
    let events = &h.events;
    assert_eq!(events.len(), 2);
    // OpCodeRegistered(opcode u32, port i32, slot i32)
    assert_eq!(
        events[0].0,
        ID_BASE + EVENTID_OP_CODE_REGISTERED
    );
    assert_eq!(events[0].1, LogSeverity::Diagnostic);
    assert_eq!(
        events[0].2,
        vec![0, 0, 0x05, 0, 0, 0, 0, 3, 0, 0, 0, 0] // op, port 3, slot 0
    );
    assert_eq!(
        events[1].2,
        vec![0, 0, 0x06, 0, 0, 0, 0, 7, 0, 0, 0, 1] // op, port 7, slot 1
    );
}

#[test]
fn reregistration_same_port_is_diagnostic() {
    let mut h = build();
    h.register(3, 0x500);
    h.register(3, 0x500);
    let events = &h.events;
    assert_eq!(events.len(), 2);
    assert_eq!(
        events[1].0,
        ID_BASE + EVENTID_OP_CODE_REREGISTERED
    );
    assert_eq!(events[1].1, LogSeverity::Diagnostic);
    assert_eq!(events[1].2, vec![0, 0, 0x05, 0, 0, 0, 0, 3]);
}

#[test]
fn seq_cmd_buff_envelope_bytes_are_byte_exact() {
    let message = Message {
        port: 2,
        content: Content::SeqCmdBuff {
            data: cmd_packet(0x0102_0304, &[0xAA]),
            context: 0x0BAD_F00D,
        },
    };
    assert_eq!(
        message.encode(),
        vec![
            0x00, 0x00, 0x00, 0x02, // a command packet
            0x00, 0x02, // port 2
            0x00, 0x07, // length of the packet (2 + 4 + 1)
            0x00, 0x00, // packet descriptor
            0x01, 0x02, 0x03, 0x04, // opcode
            0xAA, // argument byte
            0x0B, 0xAD, 0xF0, 0x0D, // context
        ]
    );
}

#[test]
fn dispatch_and_completion_forwards_context_in_cmd_seq_position() {
    let mut h = build();
    h.connect_target(4, 9);
    h.connect_caller(1);
    h.register(4, 0x500);

    let packet = cmd_packet(0x500, &[1, 2, 3]);
    h.send_seq_cmd(1, &packet, 0xC0FFEE);

    // Dispatched with the dispatcher's own sequence number (0).
    assert_eq!(
        h.cmds,
        vec![(9, 0x500, 0, vec![1, 2, 3])]
    );
    // OpCodeDispatched(op, port) after registration event.
    {
        let events = &h.events;
        let last = events.last().unwrap();
        assert_eq!(last.0, ID_BASE + EVENTID_OP_CODE_DISPATCHED);
        assert_eq!(last.1, LogSeverity::Command);
        assert_eq!(last.2, vec![0, 0, 0x05, 0, 0, 0, 0, 4]);
    }

    // Completion: OK response keyed by seq 0.
    h.respond(0x500, 0, CmdResponse::OK);

    // The caller gets its CONTEXT back in the cmdSeq slot, not seq 0.
    assert_eq!(
        h.seq_responses,
        vec![(0x500, 0xC0FFEE, CmdResponse::OK)]
    );
    let events = &h.events;
    let last = events.last().unwrap();
    assert_eq!(last.0, ID_BASE + EVENTID_OP_CODE_COMPLETED);
    assert_eq!(last.2, vec![0, 0, 0x05, 0]);
}

#[test]
fn error_completion_counts_error_and_forwards_response() {
    let mut h = build();
    h.connect_target(0, 0);
    h.connect_caller(0);
    h.register(0, 0x500);

    let packet = cmd_packet(0x500, &[]);
    h.send_seq_cmd(0, &packet, 7);
    h.respond(0x500, 0, CmdResponse::ExecutionError);

    assert_eq!(
        h.seq_responses,
        vec![(0x500, 7, CmdResponse::ExecutionError)]
    );
    // OpCodeError(op, response) COMMAND severity.
    let events = &h.events;
    let last = events.last().unwrap();
    assert_eq!(last.0, ID_BASE + EVENTID_OP_CODE_ERROR);
    assert_eq!(last.1, LogSeverity::Command);
    assert_eq!(last.2, vec![0, 0, 0x05, 0, 4]); // ExecutionError = 4

    // Errors telemetry reflects the error.
    h.run();
    let tlm = &h.tlm;
    assert!(tlm.contains(&(
        ID_BASE + CHANID_COMMAND_ERRORS,
        vec![0, 0, 0, 1]
    )));
}

#[test]
fn malformed_packet_replies_validation_error_and_does_not_bump_seq() {
    let mut h = build();
    h.connect_target(0, 0);
    h.connect_caller(0);
    h.register(0, 0x500);

    // A descriptor that is not that of a command.
    let bad = vec![0, 1, 0, 0, 0x05, 0];
    h.send_seq_cmd(0, &bad, 5);

    {
        let events = &h.events;
        let last = events.last().unwrap();
        assert_eq!(last.0, ID_BASE + EVENTID_MALFORMED_COMMAND);
        assert_eq!(last.1, LogSeverity::WarningHi);
        assert_eq!(last.2, vec![6]);
    }
    assert_eq!(
        h.seq_responses,
        vec![(0, 5, CmdResponse::ValidationError)] // opcode 0: parse never got there
    );

    // seq unchanged: the next dispatched command still carries seq 0.
    let good = cmd_packet(0x500, &[]);
    h.send_seq_cmd(0, &good, 6);
    assert_eq!(h.cmds, vec![(0, 0x500, 0, vec![])]);
}

#[test]
fn invalid_opcode_replies_invalid_opcode_and_bumps_seq() {
    let mut h = build();
    h.connect_target(0, 0);
    h.connect_caller(0);
    h.register(0, 0x500);

    let unknown = cmd_packet(0x999, &[]);
    h.send_seq_cmd(0, &unknown, 1);
    {
        let events = &h.events;
        let last = events.last().unwrap();
        assert_eq!(last.0, ID_BASE + EVENTID_INVALID_COMMAND);
        assert_eq!(last.2, vec![0, 0, 0x09, 0x99]);
    }
    assert_eq!(
        h.seq_responses,
        vec![(0x999, 1, CmdResponse::InvalidOpcode)]
    );

    // seq DID increment: next dispatch carries seq 1.
    let good = cmd_packet(0x500, &[]);
    h.send_seq_cmd(0, &good, 2);
    assert_eq!(h.cmds, vec![(0, 0x500, 1, vec![])]);
}

#[test]
fn registered_but_unconnected_target_is_invalid_command() {
    let mut h = build();
    h.connect_caller(0);
    h.register(12, 0x500); // compCmdSend[12] never connected

    let packet = cmd_packet(0x500, &[]);
    h.send_seq_cmd(0, &packet, 3);
    assert_eq!(
        h.events.last().unwrap().0,
        ID_BASE + EVENTID_INVALID_COMMAND
    );
    assert_eq!(
        h.seq_responses,
        vec![(0x500, 3, CmdResponse::InvalidOpcode)]
    );
}

#[test]
fn unconnected_caller_status_port_skips_tracking_but_dispatches() {
    let mut h = build();
    h.connect_target(0, 0);
    // seq_cmd_status[2] (the caller) left unconnected; [0] connected to
    // prove nothing is forwarded anywhere.
    h.connect_caller(0);
    h.register(0, 0x500);

    let packet = cmd_packet(0x500, &[]);
    h.send_seq_cmd(2, &packet, 3);
    assert_eq!(h.cmds.len(), 1);

    // Completion finds no tracking entry -> no forward, no assert.
    h.respond(0x500, 0, CmdResponse::OK);
    assert!(h.seq_responses.is_empty());
}

#[test]
fn tracker_full_replies_execution_error_and_does_not_bump_seq() {
    let mut h = build();
    h.connect_target(0, 0);
    h.connect_caller(0);
    h.register(0, 0x500);

    // Fill all 25 tracker slots (each dispatch tracks + bumps seq).
    for i in 0..SEQUENCER_TABLE_SIZE as u32 {
        let packet = cmd_packet(0x500, &[]);
        h.send_seq_cmd(0, &packet, i);
    }
    assert_eq!(h.cmds.len(), SEQUENCER_TABLE_SIZE);

    // 26th: TooManyCommands + EXECUTION_ERROR, not dispatched.
    let packet = cmd_packet(0x500, &[]);
    h.send_seq_cmd(0, &packet, 99);
    assert_eq!(h.cmds.len(), SEQUENCER_TABLE_SIZE);
    {
        let events = &h.events;
        let last = events.last().unwrap();
        assert_eq!(last.0, ID_BASE + EVENTID_TOO_MANY_COMMANDS);
        assert_eq!(last.1, LogSeverity::WarningHi);
    }
    assert_eq!(
        h.seq_responses.last().unwrap(),
        &(0x500, 99, CmdResponse::ExecutionError)
    );

    // seq did NOT increment on the full-tracker path: complete one
    // command to free a slot, then the next dispatch reuses seq 25.
    h.respond(0x500, 0, CmdResponse::OK);
    let packet = cmd_packet(0x500, &[]);
    h.send_seq_cmd(0, &packet, 100);
    assert_eq!(
        h.cmds.last().unwrap(),
        &(0, 0x500, SEQUENCER_TABLE_SIZE as u32, vec![])
    );
}

#[test]
fn own_commands_emit_events_and_respond_ok() {
    let mut h = build();
    h.reg_commands();
    assert_eq!(
        h.regs,
        vec![ID_BASE, ID_BASE + 1, ID_BASE + 2, ID_BASE + 3]
    );

    // NO_OP
    h.send_own_cmd(ID_BASE, 1, &[]);
    // NO_OP_STRING("hi") — string arg = u16 len + bytes.
    h.send_own_cmd(ID_BASE + 1, 2, &[0, 2, b'h', b'i']);
    // TEST_CMD_1(-1, 2.0f, 3)
    let mut args = vec![0xFF, 0xFF, 0xFF, 0xFF];
    args.extend_from_slice(&2.0f32.to_be_bytes());
    args.push(3);
    h.send_own_cmd(ID_BASE + 2, 3, &args);
    // CLEAR_TRACKING
    h.send_own_cmd(ID_BASE + 3, 4, &[]);

    assert_eq!(
        h.responses,
        vec![
            (ID_BASE, 1, CmdResponse::OK),
            (ID_BASE + 1, 2, CmdResponse::OK),
            (ID_BASE + 2, 3, CmdResponse::OK),
            (ID_BASE + 3, 4, CmdResponse::OK),
        ]
    );
    let events = &h.events;
    assert_eq!(events.len(), 3); // CLEAR_TRACKING emits no event
    assert_eq!(events[0].0, ID_BASE + EVENTID_NO_OP_RECEIVED);
    assert_eq!(events[0].1, LogSeverity::ActivityHi);
    assert_eq!(events[0].2, Vec::<u8>::new());
    assert_eq!(
        events[1].0,
        ID_BASE + EVENTID_NO_OP_STRING_RECEIVED
    );
    assert_eq!(events[1].2, vec![0, 2, b'h', b'i']);
    assert_eq!(
        events[2].0,
        ID_BASE + EVENTID_TEST_CMD_1_ARGS
    );
    let mut expected = vec![0xFF, 0xFF, 0xFF, 0xFF];
    expected.extend_from_slice(&2.0f32.to_be_bytes());
    expected.push(3);
    assert_eq!(events[2].2, expected);
    let texts = &h.text_events;
    assert_eq!(texts[1].1, "Received a NO-OP string=hi");
    assert_eq!(texts[2].1, "TEST_CMD_1 args: I32: -1, F32: 2, U8: 3");
}

#[test]
fn own_command_error_paths() {
    let mut h = build();
    // Residual bytes on NO_OP -> FormatError.
    h.send_own_cmd(ID_BASE, 1, &[9]);
    // Short TEST_CMD_1 args -> FormatError.
    h.send_own_cmd(ID_BASE + 2, 2, &[0, 0]);
    // Unknown local opcode -> InvalidOpcode.
    h.send_own_cmd(ID_BASE + 0x42, 3, &[]);
    assert_eq!(
        h.responses,
        vec![
            (ID_BASE, 1, CmdResponse::FormatError),
            (ID_BASE + 2, 2, CmdResponse::FormatError),
            (ID_BASE + 0x42, 3, CmdResponse::InvalidOpcode),
        ]
    );
}

#[test]
fn clear_tracking_drops_pending_commands() {
    let mut h = build();
    h.connect_target(0, 0);
    h.connect_caller(0);
    h.register(0, 0x500);

    let packet = cmd_packet(0x500, &[]);
    h.send_seq_cmd(0, &packet, 11);
    h.send_own_cmd(ID_BASE + 3, 1, &[]); // CLEAR_TRACKING

    // Completion after clear: entry gone, nothing forwarded.
    h.respond(0x500, 0, CmdResponse::OK);
    assert!(h.seq_responses.is_empty());
}

#[test]
fn queue_overflow_hook_parses_opcode_throttles_and_counts() {
    let mut h = build();
    // A queue of two: the first two packets fit, the other eight are dropped.
    let mut queue = Vec::new();
    for i in 0..10u32 {
        let packet = cmd_packet(0x500 + i, &[]);
        if queue.len() < 2 {
            queue.push((packet, i));
        } else {
            let mut out = Vec::new();
            h.comp.seq_cmd_buff_overflow(&packet, i, &mut out);
            h.take(out);
        }
    }
    let events = &h.events;
    let dropped: Vec<_> = events
        .iter()
        .filter(|e| e.0 == ID_BASE + EVENTID_COMMAND_DROPPED_QUEUE_OVERFLOW)
        .collect();
    // Throttle 5: only the first five overflow events emitted.
    assert_eq!(dropped.len(), 5);
    // First overflow was context 2 with opcode 0x502 (parsed by the hook).
    assert_eq!(dropped[0].1, LogSeverity::WarningHi);
    assert_eq!(dropped[0].2, vec![0, 0, 0x05, 0x02, 0, 0, 0, 2]);

    // All eight are counted, reported or not.
    for (packet, context) in queue {
        h.send_seq_cmd(0, &packet, context);
    }
    h.run();
    let tlm = &h.tlm;
    assert!(tlm.contains(&(
        ID_BASE + CHANID_COMMANDS_DROPPED,
        vec![0, 0, 0, 8]
    )));
}

#[test]
fn run_telemetry_is_on_change() {
    let mut h = build();
    h.run();
    h.run();
    // First run writes all three zeros; second run writes nothing.
    let tlm = &h.tlm;
    assert_eq!(
        *tlm,
        vec![
            (
                ID_BASE + CHANID_COMMANDS_DROPPED,
                vec![0, 0, 0, 0]
            ),
            (
                ID_BASE + CHANID_COMMAND_ERRORS,
                vec![0, 0, 0, 0]
            ),
            (
                ID_BASE + CHANID_COMMANDS_DISPATCHED,
                vec![0, 0, 0, 0]
            ),
        ]
    );
}

#[test]
fn ping_in_returns_key_on_ping_out() {
    let mut h = build();
    h.ping(0xFEED);
    assert_eq!(h.keys, vec![0xFEED]);
}

#[test]
fn cmd_dispatcher_active_lifecycle_end_to_end() {
    let mut h = build();
    h.connect_target(0, 0);
    h.connect_caller(0);
    h.register(0, 0x500);
    let queue = vec![
        Message {
            port: 0,
            content: Content::SeqCmdBuff { data: cmd_packet(0x500, &[7]), context: 55 },
        },
        Message {
            port: 0,
            content: Content::CompCmdStat {
                op_code: 0x500,
                cmd_seq: 0,
                response: CmdResponse::OK,
            },
        },
    ];
    for message in queue {
        h.dispatch(&message);
    }

    assert_eq!(h.cmds, vec![(0, 0x500, 0, vec![7])]);
    assert_eq!(
        h.seq_responses,
        vec![(0x500, 55, CmdResponse::OK)]
    );
    assert!(
        h.events
            .iter()
            .any(|e| e.0 == ID_BASE + EVENTID_OP_CODE_COMPLETED)
    );
}

/// An opcode belongs to one port; what is not taken is known beforehand.
#[test]
fn an_opcode_belongs_to_one_port() {
    let mut h = build();
    h.register(3, 0x500);
    assert!(h.comp.takes_registration(3, 0x500));
    assert!(!h.comp.takes_registration(4, 0x500));
    assert!(!h.comp.takes_registration(30, 0x501));
    assert!(!h.comp.takes_registration(-1, 0x501));
}

/// A command that is in flight can only be answered with its own opcode.
#[test]
fn a_response_must_be_for_the_command_in_flight() {
    let mut h = build();
    h.connect_target(0, 0);
    h.connect_caller(0);
    h.register(0, 0x500);
    h.send_seq_cmd(0, &cmd_packet(0x500, &[]), 7);
    assert!(h.comp.takes_response(0x500, 0));
    assert!(!h.comp.takes_response(0x501, 0));
    assert!(h.comp.takes_response(0x501, 9));
}

/// Packets that are cut short are malformed, each in its way.
#[test]
fn short_packets_are_malformed() {
    let mut h = build();
    h.connect_caller(0);
    h.send_seq_cmd(0, &[], 1);
    h.send_seq_cmd(0, &[0, 0], 2);
    h.send_seq_cmd(0, &[0, 0, 5], 3);
    let statuses: Vec<Vec<u8>> = h.events.iter().map(|e| e.2.clone()).collect();
    assert_eq!(statuses, vec![vec![3], vec![3], vec![5]]);
    assert_eq!(h.seq_responses.len(), 3);
    assert!(h.seq_responses.iter().all(|r| r.2 == CmdResponse::ValidationError));
}

/// The tracker takes a bounded number of entries, and gives each back once.
#[test]
fn tracker_is_bounded() {
    let mut tracker = SequenceTracker::new();
    for key in 0..SEQUENCER_TABLE_SIZE as u32 {
        let entry = SequenceTrackerEntry { op_code: 0x500 + key, context: key, caller_port: 0 };
        assert!(tracker.insert(key, entry));
    }
    let entry = SequenceTrackerEntry { op_code: 1, context: 2, caller_port: 3 };
    assert!(!tracker.insert(99, entry));
    assert_eq!(tracker.get(99), None);
    assert_eq!(tracker.remove(4).map(|e| e.op_code), Some(0x504));
    assert_eq!(tracker.remove(4), None);
    assert!(tracker.insert(99, entry));
    assert_eq!(tracker.get(99), Some(entry));
    tracker.clear();
    assert_eq!(tracker.get(99), None);
}

/// A message of a type that there is none of, or cut short, is an error and changes
/// nothing.
#[test]
fn bad_messages_are_errors() {
    let mut h = build();
    let mut out = Vec::new();
    assert_eq!(h.comp.dispatch_message(77, &[0, 0], &mut out), MsgDispatchStatus::Error);
    assert_eq!(h.comp.dispatch_message(3, &[0, 0, 1], &mut out), MsgDispatchStatus::Error);
    assert!(out.is_empty());
}
