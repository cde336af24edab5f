//! Opcodes, events, telemetry channels and the outputs of the dispatcher.
use vstd::prelude::*;

use crate::fw::bytes;
use crate::fw::bytes::DeserialStatus;
use crate::fw::decimal;
use crate::fw::text;
use crate::fw::types::{CmdResponse, LogSeverity};

verus! {

broadcast use crate::fw::bytes::lemma_be32_len;

/// How many ports lead to components.
pub const COMMAND_PORTS: usize = 30;

/// How many ports lead back to callers.
pub const SEQUENCE_PORTS: usize = 5;

/// How many opcodes can be registered.
pub const DISPATCH_TABLE_SIZE: usize = 150;

/// How many commands can be in flight.
pub const SEQUENCER_TABLE_SIZE: usize = 25;

/// How large the string of a command can be.
pub const CMD_STRING_MAX_SIZE: usize = 40;

/// The packet descriptor of a command.
pub const FW_PACKET_COMMAND: u16 = 0;

/// Do nothing.
pub const OPCODE_CMD_NO_OP: u32 = 0;

/// Do nothing but report a string.
pub const OPCODE_CMD_NO_OP_STRING: u32 = 1;

/// Report arguments of several types.
pub const OPCODE_CMD_TEST_CMD_1: u32 = 2;

/// Forget the commands in flight.
pub const OPCODE_CMD_CLEAR_TRACKING: u32 = 3;

/// `OpCodeRegistered`.
pub const EVENTID_OP_CODE_REGISTERED: u32 = 0;

/// `OpCodeDispatched`.
pub const EVENTID_OP_CODE_DISPATCHED: u32 = 1;

/// `OpCodeCompleted`.
pub const EVENTID_OP_CODE_COMPLETED: u32 = 2;

/// `OpCodeError`.
pub const EVENTID_OP_CODE_ERROR: u32 = 3;

/// `MalformedCommand`.
pub const EVENTID_MALFORMED_COMMAND: u32 = 4;

/// `InvalidCommand`.
pub const EVENTID_INVALID_COMMAND: u32 = 5;

/// `TooManyCommands`.
pub const EVENTID_TOO_MANY_COMMANDS: u32 = 6;

/// `NoOpReceived`.
pub const EVENTID_NO_OP_RECEIVED: u32 = 7;

/// `NoOpStringReceived`.
pub const EVENTID_NO_OP_STRING_RECEIVED: u32 = 8;

/// `TestCmd1Args`.
pub const EVENTID_TEST_CMD_1_ARGS: u32 = 9;

/// `OpCodeReregistered`.
pub const EVENTID_OP_CODE_REREGISTERED: u32 = 10;

/// `CommandDroppedQueueOverflow`.
pub const EVENTID_COMMAND_DROPPED_QUEUE_OVERFLOW: u32 = 11;

/// How often a dropped command is reported.
pub const COMMAND_DROPPED_THROTTLE: u32 = 5;

/// Telemetry channel of the number of dispatched commands.
pub const CHANID_COMMANDS_DISPATCHED: u32 = 0;

/// Telemetry channel of the number of commands that went wrong.
pub const CHANID_COMMAND_ERRORS: u32 = 1;

/// Telemetry channel of the number of dropped commands.
pub const CHANID_COMMANDS_DROPPED: u32 = 2;

/// What the dispatcher reports. `B` holds bytes: a `Vec<u8>` in memory, a `Seq<u8>` in
/// contracts.
#[derive(Debug)]
pub enum DispatcherEvent<B = Vec<u8>> {
    /// An opcode was registered.
    OpCodeRegistered { op_code: u32, port: i32, slot: i32 },
    /// A command was dispatched.
    OpCodeDispatched { op_code: u32, port: i32 },
    /// A command was carried out.
    OpCodeCompleted { op_code: u32 },
    /// A command failed.
    OpCodeError { op_code: u32, error: CmdResponse },
    /// A command packet could not be taken apart.
    MalformedCommand { status: DeserialStatus },
    /// No component takes a command.
    InvalidCommand { op_code: u32 },
    /// Too many commands are in flight.
    TooManyCommands { op_code: u32 },
    /// A command to do nothing.
    NoOpReceived,
    /// A command to do nothing, with a string.
    NoOpStringReceived { message: B },
    /// A command with arguments of several types; the second is a floating-point number,
    /// held as its bits.
    TestCmd1Args { arg1: i32, arg2: u32, arg3: u8 },
    /// An opcode was registered again.
    OpCodeReregistered { op_code: u32, port: i32 },
    /// A command was dropped.
    CommandDroppedQueueOverflow { op_code: u32, context: u32 },
}

impl View for DispatcherEvent<Vec<u8>> {
    type V = DispatcherEvent<Seq<u8>>;

    open spec fn view(&self) -> DispatcherEvent<Seq<u8>> {
        match self {
            DispatcherEvent::OpCodeRegistered { op_code, port, slot } => DispatcherEvent::OpCodeRegistered {
                op_code: *op_code,
                port: *port,
                slot: *slot,
            },
            DispatcherEvent::OpCodeDispatched { op_code, port } => DispatcherEvent::OpCodeDispatched {
                op_code: *op_code,
                port: *port,
            },
            DispatcherEvent::OpCodeCompleted { op_code } => DispatcherEvent::OpCodeCompleted {
                op_code: *op_code,
            },
            DispatcherEvent::OpCodeError { op_code, error } => DispatcherEvent::OpCodeError {
                op_code: *op_code,
                error: *error,
            },
            DispatcherEvent::MalformedCommand { status } => DispatcherEvent::MalformedCommand {
                status: *status,
            },
            DispatcherEvent::InvalidCommand { op_code } => DispatcherEvent::InvalidCommand {
                op_code: *op_code,
            },
            DispatcherEvent::TooManyCommands { op_code } => DispatcherEvent::TooManyCommands {
                op_code: *op_code,
            },
            DispatcherEvent::NoOpReceived => DispatcherEvent::NoOpReceived,
            DispatcherEvent::NoOpStringReceived { message } => DispatcherEvent::NoOpStringReceived {
                message: message@,
            },
            DispatcherEvent::TestCmd1Args { arg1, arg2, arg3 } => DispatcherEvent::TestCmd1Args {
                arg1: *arg1,
                arg2: *arg2,
                arg3: *arg3,
            },
            DispatcherEvent::OpCodeReregistered { op_code, port } => DispatcherEvent::OpCodeReregistered {
                op_code: *op_code,
                port: *port,
            },
            DispatcherEvent::CommandDroppedQueueOverflow { op_code, context } => DispatcherEvent::CommandDroppedQueueOverflow {
                op_code: *op_code,
                context: *context,
            },
        }
    }
}

impl DispatcherEvent<Seq<u8>> {
    /// The event identifier, relative to the component's base.
    pub open spec fn id_spec(self) -> u32 {
        match self {
            DispatcherEvent::OpCodeRegistered { .. } => EVENTID_OP_CODE_REGISTERED,
            DispatcherEvent::OpCodeDispatched { .. } => EVENTID_OP_CODE_DISPATCHED,
            DispatcherEvent::OpCodeCompleted { .. } => EVENTID_OP_CODE_COMPLETED,
            DispatcherEvent::OpCodeError { .. } => EVENTID_OP_CODE_ERROR,
            DispatcherEvent::MalformedCommand { .. } => EVENTID_MALFORMED_COMMAND,
            DispatcherEvent::InvalidCommand { .. } => EVENTID_INVALID_COMMAND,
            DispatcherEvent::TooManyCommands { .. } => EVENTID_TOO_MANY_COMMANDS,
            DispatcherEvent::NoOpReceived => EVENTID_NO_OP_RECEIVED,
            DispatcherEvent::NoOpStringReceived { .. } => EVENTID_NO_OP_STRING_RECEIVED,
            DispatcherEvent::TestCmd1Args { .. } => EVENTID_TEST_CMD_1_ARGS,
            DispatcherEvent::OpCodeReregistered { .. } => EVENTID_OP_CODE_REREGISTERED,
            DispatcherEvent::CommandDroppedQueueOverflow { .. } => EVENTID_COMMAND_DROPPED_QUEUE_OVERFLOW,
        }
    }

    /// How serious the event is.
    pub open spec fn severity_spec(self) -> LogSeverity {
        match self {
            DispatcherEvent::OpCodeRegistered { .. } => LogSeverity::Diagnostic,
            DispatcherEvent::OpCodeReregistered { .. } => LogSeverity::Diagnostic,
            DispatcherEvent::OpCodeDispatched { .. } => LogSeverity::Command,
            DispatcherEvent::OpCodeCompleted { .. } => LogSeverity::Command,
            DispatcherEvent::OpCodeError { .. } => LogSeverity::Command,
            DispatcherEvent::NoOpReceived => LogSeverity::ActivityHi,
            DispatcherEvent::NoOpStringReceived { .. } => LogSeverity::ActivityHi,
            DispatcherEvent::TestCmd1Args { .. } => LogSeverity::ActivityHi,
            _ => LogSeverity::WarningHi,
        }
    }

    /// The arguments on the wire.
    pub open spec fn wire(self) -> Seq<u8> {
        match self {
            DispatcherEvent::OpCodeRegistered { op_code, port, slot } => bytes::be32(op_code)
                + bytes::be32(bytes::bits32(port)) + bytes::be32(bytes::bits32(slot)),
            DispatcherEvent::OpCodeDispatched { op_code, port } => bytes::be32(op_code)
                + bytes::be32(bytes::bits32(port)),
            DispatcherEvent::OpCodeCompleted { op_code } => bytes::be32(op_code),
            DispatcherEvent::OpCodeError { op_code, error } => bytes::be32(op_code) + seq![
                error.code(),
            ],
            DispatcherEvent::MalformedCommand { status } => seq![status.code()],
            DispatcherEvent::InvalidCommand { op_code } => bytes::be32(op_code),
            DispatcherEvent::TooManyCommands { op_code } => bytes::be32(op_code),
            DispatcherEvent::NoOpReceived => Seq::empty(),
            DispatcherEvent::NoOpStringReceived { message } => bytes::be_string(message),
            DispatcherEvent::TestCmd1Args { arg1, arg2, arg3 } => bytes::be32(bytes::bits32(arg1))
                + bytes::be32(arg2) + seq![arg3],
            DispatcherEvent::OpCodeReregistered { op_code, port } => bytes::be32(op_code)
                + bytes::be32(bytes::bits32(port)),
            DispatcherEvent::CommandDroppedQueueOverflow { op_code, context } => bytes::be32(
                op_code,
            ) + bytes::be32(context),
        }
    }
}

impl DispatcherEvent<Vec<u8>> {
    /// The event identifier, relative to the component's base.
    pub fn id(&self) -> (r: u32)
        ensures
            r == self@.id_spec(),
    {
        match self {
            DispatcherEvent::OpCodeRegistered { .. } => EVENTID_OP_CODE_REGISTERED,
            DispatcherEvent::OpCodeDispatched { .. } => EVENTID_OP_CODE_DISPATCHED,
            DispatcherEvent::OpCodeCompleted { .. } => EVENTID_OP_CODE_COMPLETED,
            DispatcherEvent::OpCodeError { .. } => EVENTID_OP_CODE_ERROR,
            DispatcherEvent::MalformedCommand { .. } => EVENTID_MALFORMED_COMMAND,
            DispatcherEvent::InvalidCommand { .. } => EVENTID_INVALID_COMMAND,
            DispatcherEvent::TooManyCommands { .. } => EVENTID_TOO_MANY_COMMANDS,
            DispatcherEvent::NoOpReceived => EVENTID_NO_OP_RECEIVED,
            DispatcherEvent::NoOpStringReceived { .. } => EVENTID_NO_OP_STRING_RECEIVED,
            DispatcherEvent::TestCmd1Args { .. } => EVENTID_TEST_CMD_1_ARGS,
            DispatcherEvent::OpCodeReregistered { .. } => EVENTID_OP_CODE_REREGISTERED,
            DispatcherEvent::CommandDroppedQueueOverflow { .. } => EVENTID_COMMAND_DROPPED_QUEUE_OVERFLOW,
        }
    }

    /// How serious the event is.
    pub fn severity(&self) -> (r: LogSeverity)
        ensures
            r == self@.severity_spec(),
    {
        match self {
            DispatcherEvent::OpCodeRegistered { .. } => LogSeverity::Diagnostic,
            DispatcherEvent::OpCodeReregistered { .. } => LogSeverity::Diagnostic,
            DispatcherEvent::OpCodeDispatched { .. } => LogSeverity::Command,
            DispatcherEvent::OpCodeCompleted { .. } => LogSeverity::Command,
            DispatcherEvent::OpCodeError { .. } => LogSeverity::Command,
            DispatcherEvent::NoOpReceived => LogSeverity::ActivityHi,
            DispatcherEvent::NoOpStringReceived { .. } => LogSeverity::ActivityHi,
            DispatcherEvent::TestCmd1Args { .. } => LogSeverity::ActivityHi,
            _ => LogSeverity::WarningHi,
        }
    }

    /// The arguments on the wire.
    pub fn args(&self) -> (r: Vec<u8>)
        requires
            self@ is NoOpStringReceived ==> self@->message.len() <= CMD_STRING_MAX_SIZE,
        ensures
            r@ == self@.wire(),
    {
        let mut out: Vec<u8> = Vec::new();
        match self {
            DispatcherEvent::OpCodeRegistered { op_code, port, slot } => {
                bytes::push_u32(&mut out, *op_code);
                bytes::push_i32(&mut out, *port);
                bytes::push_i32(&mut out, *slot);
            },
            DispatcherEvent::OpCodeDispatched { op_code, port } => {
                bytes::push_u32(&mut out, *op_code);
                bytes::push_i32(&mut out, *port);
            },
            DispatcherEvent::OpCodeCompleted { op_code } => {
                bytes::push_u32(&mut out, *op_code);
            },
            DispatcherEvent::OpCodeError { op_code, error } => {
                bytes::push_u32(&mut out, *op_code);
                bytes::push_u8(&mut out, error.as_repr());
            },
            DispatcherEvent::MalformedCommand { status } => {
                bytes::push_u8(&mut out, status.as_repr());
            },
            DispatcherEvent::InvalidCommand { op_code } => {
                bytes::push_u32(&mut out, *op_code);
            },
            DispatcherEvent::TooManyCommands { op_code } => {
                bytes::push_u32(&mut out, *op_code);
            },
            DispatcherEvent::NoOpReceived => {},
            DispatcherEvent::NoOpStringReceived { message } => {
                bytes::push_string(&mut out, message.as_slice());
            },
            DispatcherEvent::TestCmd1Args { arg1, arg2, arg3 } => {
                bytes::push_i32(&mut out, *arg1);
                bytes::push_u32(&mut out, *arg2);
                bytes::push_u8(&mut out, *arg3);
            },
            DispatcherEvent::OpCodeReregistered { op_code, port } => {
                bytes::push_u32(&mut out, *op_code);
                bytes::push_i32(&mut out, *port);
            },
            DispatcherEvent::CommandDroppedQueueOverflow { op_code, context } => {
                bytes::push_u32(&mut out, *op_code);
                bytes::push_u32(&mut out, *context);
            },
        }
        assert(out@ =~= self@.wire());
        out
    }
}

impl DispatcherEvent<Seq<u8>> {
    /// The text of the event. `number` is the floating-point argument of the test command,
    /// written out; no other event has one.
    pub open spec fn text_spec(self, number: Seq<u8>) -> Seq<u8> {
        match self {
            DispatcherEvent::OpCodeRegistered { op_code, port, slot } => text::words("Opcode 0x"@)
                + text::upper_hex(op_code as nat) + text::words(" registered to port "@)
                + decimal::signed(port as int) + text::words(" slot "@)
                + decimal::signed(slot as int),
            DispatcherEvent::OpCodeDispatched { op_code, port } => text::words("Opcode 0x"@)
                + text::upper_hex(op_code as nat) + text::words(" dispatched to port "@)
                + decimal::signed(port as int),
            DispatcherEvent::OpCodeCompleted { op_code } => text::words("Opcode 0x"@)
                + text::upper_hex(op_code as nat) + text::words(" completed"@),
            DispatcherEvent::OpCodeError { op_code, error } => text::words("Opcode 0x"@)
                + text::upper_hex(op_code as nat) + text::words(" completed with error "@)
                + text::words(error.spec_label()),
            DispatcherEvent::MalformedCommand { status } =>
                text::words("Received malformed command packet. Status: "@)
                + text::words(status.spec_label()),
            DispatcherEvent::InvalidCommand { op_code } => text::words("Invalid opcode 0x"@)
                + text::upper_hex(op_code as nat) + text::words(" received"@),
            DispatcherEvent::TooManyCommands { op_code } =>
                text::words("Too many outstanding commands. opcode=0x"@)
                + text::upper_hex(op_code as nat),
            DispatcherEvent::NoOpReceived => text::words("Received a NO-OP command"@),
            DispatcherEvent::NoOpStringReceived { message } =>
                text::words("Received a NO-OP string="@) + message,
            DispatcherEvent::TestCmd1Args { arg1, arg3, .. } =>
                text::words("TEST_CMD_1 args: I32: "@) + decimal::signed(arg1 as int)
                + text::words(", F32: "@) + number + text::words(", U8: "@)
                + decimal::digits(arg3 as nat),
            DispatcherEvent::OpCodeReregistered { op_code, port } => text::words("Opcode 0x"@)
                + text::upper_hex(op_code as nat) + text::words(" is already registered to port "@)
                + decimal::signed(port as int),
            DispatcherEvent::CommandDroppedQueueOverflow { op_code, context } =>
                text::words("Opcode 0x"@) + text::upper_hex(op_code as nat)
                + text::words(" was dropped due to buffer overflow and not processed. Context "@)
                + decimal::digits(context as nat),
        }
    }
}

impl DispatcherEvent<Vec<u8>> {
    /// The text of the event. `number` is the floating-point argument of the test command,
    /// written out; no other event has one.
    pub fn text(&self, number: &[u8]) -> (r: Vec<u8>)
        ensures
            r@ == self@.text_spec(number@),
    {
        match self {
            DispatcherEvent::OpCodeRegistered { op_code, port, slot } => {
                let mut out: Vec<u8> = text::begin("Opcode 0x");
                text::push_upper_hex(&mut out, *op_code);
                text::push_words(&mut out, " registered to port ");
                text::push_signed(&mut out, *port as i32);
                text::push_words(&mut out, " slot ");
                text::push_signed(&mut out, *slot as i32);
                out
            },
            DispatcherEvent::OpCodeDispatched { op_code, port } => {
                let mut out: Vec<u8> = text::begin("Opcode 0x");
                text::push_upper_hex(&mut out, *op_code);
                text::push_words(&mut out, " dispatched to port ");
                text::push_signed(&mut out, *port as i32);
                out
            },
            DispatcherEvent::OpCodeCompleted { op_code } => {
                let mut out: Vec<u8> = text::begin("Opcode 0x");
                text::push_upper_hex(&mut out, *op_code);
                text::push_words(&mut out, " completed");
                out
            },
            DispatcherEvent::OpCodeError { op_code, error } => {
                let mut out: Vec<u8> = text::begin("Opcode 0x");
                text::push_upper_hex(&mut out, *op_code);
                text::push_words(&mut out, " completed with error ");
                text::push_words(&mut out, error.label());
                out
            },
            DispatcherEvent::MalformedCommand { status } => {
                let mut out: Vec<u8> = text::begin("Received malformed command packet. Status: ");
                text::push_words(&mut out, status.label());
                out
            },
            DispatcherEvent::InvalidCommand { op_code } => {
                let mut out: Vec<u8> = text::begin("Invalid opcode 0x");
                text::push_upper_hex(&mut out, *op_code);
                text::push_words(&mut out, " received");
                out
            },
            DispatcherEvent::TooManyCommands { op_code } => {
                let mut out: Vec<u8> = text::begin("Too many outstanding commands. opcode=0x");
                text::push_upper_hex(&mut out, *op_code);
                out
            },
            DispatcherEvent::NoOpReceived => text::begin("Received a NO-OP command"),
            DispatcherEvent::NoOpStringReceived { message } => {
                let mut out: Vec<u8> = text::begin("Received a NO-OP string=");
                text::push_name(&mut out, message.as_slice());
                out
            },
            DispatcherEvent::TestCmd1Args { arg1, arg3, .. } => {
                let mut out: Vec<u8> = text::begin("TEST_CMD_1 args: I32: ");
                text::push_signed(&mut out, *arg1 as i32);
                text::push_words(&mut out, ", F32: ");
                text::push_name(&mut out, number);
                text::push_words(&mut out, ", U8: ");
                text::push_number(&mut out, *arg3 as u64);
                out
            },
            DispatcherEvent::OpCodeReregistered { op_code, port } => {
                let mut out: Vec<u8> = text::begin("Opcode 0x");
                text::push_upper_hex(&mut out, *op_code);
                text::push_words(&mut out, " is already registered to port ");
                text::push_signed(&mut out, *port as i32);
                out
            },
            DispatcherEvent::CommandDroppedQueueOverflow { op_code, context } => {
                let mut out: Vec<u8> = text::begin("Opcode 0x");
                text::push_upper_hex(&mut out, *op_code);
                text::push_words(&mut out, " was dropped due to buffer overflow and not processed. Context ");
                text::push_number(&mut out, *context as u64);
                out
            },
        }
    }
}

/// What the dispatcher asks its surroundings to do. `B` holds bytes.
#[derive(Debug)]
pub enum Action<B = Vec<u8>> {
    /// Report an event.
    Event(DispatcherEvent<B>),
    /// Write a telemetry channel.
    Tlm {
        /// The channel, relative to the component's base.
        id: u32,
        /// The value.
        value: u32,
    },
    /// Register an opcode of the dispatcher itself.
    CmdReg { op_code: u32 },
    /// Answer a command to the dispatcher itself.
    CmdResponse { op_code: u32, cmd_seq: u32, response: CmdResponse },
    /// Send a command to the component at a port.
    CompCmdSend { port: i16, op_code: u32, cmd_seq: u32, args: B },
    /// Tell the caller at a port how a command went.
    SeqCmdStatus { port: i16, op_code: u32, context: u32, response: CmdResponse },
    /// Answer a ping.
    PingOut { key: u32 },
}

impl View for Action<Vec<u8>> {
    type V = Action<Seq<u8>>;

    open spec fn view(&self) -> Action<Seq<u8>> {
        match self {
            Action::Event(event) => Action::Event(event@),
            Action::Tlm { id, value } => Action::Tlm { id: *id, value: *value },
            Action::CmdReg { op_code } => Action::CmdReg { op_code: *op_code },
            Action::CmdResponse { op_code, cmd_seq, response } => Action::CmdResponse {
                op_code: *op_code,
                cmd_seq: *cmd_seq,
                response: *response,
            },
            Action::CompCmdSend { port, op_code, cmd_seq, args } => Action::CompCmdSend {
                port: *port,
                op_code: *op_code,
                cmd_seq: *cmd_seq,
                args: args@,
            },
            Action::SeqCmdStatus { port, op_code, context, response } => Action::SeqCmdStatus {
                port: *port,
                op_code: *op_code,
                context: *context,
                response: *response,
            },
            Action::PingOut { key } => Action::PingOut { key: *key },
        }
    }
}

} // verus!
