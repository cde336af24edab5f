//! What the dispatcher does, as functions from a state and the outputs so far to the next
//! state and outputs.
use vstd::prelude::*;

use super::dictionary;
use super::dictionary::{
    Action, DispatcherEvent, CMD_STRING_MAX_SIZE, COMMAND_PORTS,
    DISPATCH_TABLE_SIZE, FW_PACKET_COMMAND, SEQUENCER_TABLE_SIZE, SEQUENCE_PORTS,
};
use super::tracker;
use super::tracker::SequenceTrackerEntry;
use crate::fw::bytes;
use crate::fw::bytes::{DeserialStatus, SerializeStatus};
use crate::fw::counter;
use crate::fw::envelope::COM_BUFFER_MAX_SIZE;
use crate::fw::throttle::EventThrottle;
use crate::fw::types::CmdResponse;

verus! {

broadcast use crate::fw::bytes::lemma_be32_len;

/// The state of the dispatcher.
#[verifier::ext_equal]
pub struct DispatcherState {
    /// The number that the component's identifiers start at.
    pub id_base: u32,
    /// Which ports to components are connected.
    pub targets: Seq<bool>,
    /// Which ports back to callers are connected.
    pub callers: Seq<bool>,
    /// The port of each registered opcode.
    pub table: Map<u32, i16>,
    /// The commands in flight.
    pub in_flight: Map<u32, SequenceTrackerEntry>,
    /// The sequence number of the next command.
    pub seq: u32,
    /// How many commands were dispatched.
    pub dispatched: u32,
    /// How many commands went wrong.
    pub errors: u32,
    /// How many commands were dropped.
    pub dropped: u32,
    /// The number of dispatched commands that was written last.
    pub last_dispatched: Option<u32>,
    /// The number of errors that was written last.
    pub last_errors: Option<u32>,
    /// The number of dropped commands that was written last.
    pub last_dropped: Option<u32>,
    /// Limits the reports of dropped commands.
    pub dropped_throttle: EventThrottle,
}

impl DispatcherState {
    /// The conditions that every operation keeps. The tables hold no more than fits, and
    /// only ports that exist.
    pub open spec fn valid(self) -> bool {
        &&& self.targets.len() == COMMAND_PORTS
        &&& self.callers.len() == SEQUENCE_PORTS
        &&& self.table.dom().finite()
        &&& self.table.len() <= DISPATCH_TABLE_SIZE
        &&& self.in_flight.dom().finite()
        &&& self.in_flight.len() <= SEQUENCER_TABLE_SIZE
        &&& forall|op_code: u32| #[trigger]
            self.table.contains_key(op_code) ==> 0 <= self.table[op_code] < COMMAND_PORTS
        &&& forall|seq: u32| #[trigger]
            self.in_flight.contains_key(seq) ==> 0 <= self.in_flight[seq].caller_port
                < SEQUENCE_PORTS
    }

    /// A dispatcher with nothing registered and nothing connected.
    pub open spec fn initial(id_base: u32) -> DispatcherState {
        DispatcherState {
            id_base,
            targets: Seq::new(COMMAND_PORTS as nat, |i: int| false),
            callers: Seq::new(SEQUENCE_PORTS as nat, |i: int| false),
            table: Map::empty(),
            in_flight: Map::empty(),
            seq: 0,
            dispatched: 0,
            errors: 0,
            dropped: 0,
            last_dispatched: None,
            last_errors: None,
            last_dropped: None,
            dropped_throttle: EventThrottle {
                limit: dictionary::COMMAND_DROPPED_THROTTLE,
                count: 0,
            },
        }
    }

    /// Whether an opcode can be registered for a port: it is not registered for another
    /// one, and there is room for it.
    pub open spec fn takes_registration(self, port: int, op_code: u32) -> bool {
        &&& 0 <= port < COMMAND_PORTS
        &&& if self.table.contains_key(op_code) {
            self.table[op_code] == port
        } else {
            self.table.len() < DISPATCH_TABLE_SIZE
        }
    }

    /// Whether a command packet can be taken.
    pub open spec fn takes_packet(self, port: int, data: Seq<u8>) -> bool {
        &&& 0 <= port < SEQUENCE_PORTS
        &&& data.len() <= COM_BUFFER_MAX_SIZE
    }

    /// Whether a response can be taken: a command in flight is answered under its own
    /// opcode.
    pub open spec fn takes_response(self, op_code: u32, cmd_seq: u32) -> bool {
        self.in_flight.contains_key(cmd_seq) ==> self.in_flight[cmd_seq].op_code == op_code
    }

    /// The port that leads to the component that takes a command, if it is connected.
    pub open spec fn target_of(self, op_code: u32) -> Option<i16> {
        if self.table.contains_key(op_code) && self.targets[self.table[op_code] as int] {
            Some(self.table[op_code])
        } else {
            None
        }
    }
}

/// A command packet.
pub struct CommandPacket<B> {
    /// The opcode.
    pub op_code: u32,
    /// The arguments.
    pub args: B,
}

/// The command that a packet holds, or what is wrong with the packet.
pub open spec fn packet_of(data: Seq<u8>) -> Result<CommandPacket<Seq<u8>>, SerializeStatus> {
    match bytes::u16_read(data, 0) {
        Err(status) => Err(status),
        Ok(descriptor) => if descriptor != FW_PACKET_COMMAND {
            Err(SerializeStatus::DeserTypeMismatch)
        } else {
            match bytes::u32_read(data, 2) {
                Err(status) => Err(status),
                Ok(op_code) => Ok(CommandPacket { op_code, args: data.skip(6) }),
            }
        },
    }
}

/// The packet of a command.
pub open spec fn packet_wire(op_code: u32, args: Seq<u8>) -> Seq<u8> {
    bytes::be16(FW_PACKET_COMMAND) + bytes::be32(op_code) + args
}

/// A state with the outputs that led to it.
#[verifier::ext_equal]
pub struct Trace {
    /// The state.
    pub state: DispatcherState,
    /// The outputs so far.
    pub out: Seq<Action<Seq<u8>>>,
}

impl Trace {
    /// One more output.
    pub open spec fn emit(self, action: Action<Seq<u8>>) -> Trace {
        Trace { out: self.out.push(action), ..self }
    }

    /// An event is reported.
    pub open spec fn report(self, event: DispatcherEvent<Seq<u8>>) -> Trace {
        self.emit(Action::Event(event))
    }

    /// A command to the dispatcher itself is answered.
    pub open spec fn answer(self, op_code: u32, cmd_seq: u32, response: CmdResponse) -> Trace {
        self.emit(Action::CmdResponse { op_code, cmd_seq, response })
    }

    /// An opcode is registered for a port.
    pub open spec fn register(self, port: i16, op_code: u32) -> Trace {
        if self.state.table.contains_key(op_code) {
            self.report(DispatcherEvent::OpCodeReregistered { op_code, port: port as i32 })
        } else {
            Trace {
                state: DispatcherState {
                    table: self.state.table.insert(op_code, port),
                    ..self.state
                },
                ..self
            }.report(
                DispatcherEvent::OpCodeRegistered {
                    op_code,
                    port: port as i32,
                    slot: self.state.table.len() as i32,
                },
            )
        }
    }

    /// A caller is told how a command went, if anyone is there.
    pub open spec fn reply(
        self,
        port: i16,
        op_code: u32,
        context: u32,
        response: CmdResponse,
    ) -> Trace {
        if self.state.callers[port as int] {
            self.emit(Action::SeqCmdStatus { port, op_code, context, response })
        } else {
            self
        }
    }

    /// The sequence number goes on.
    pub open spec fn next_seq(self) -> Trace {
        Trace {
            state: DispatcherState { seq: counter::bumped(self.state.seq), ..self.state },
            ..self
        }
    }

    /// One more error.
    pub open spec fn count_error(self) -> Trace {
        Trace {
            state: DispatcherState { errors: counter::bumped(self.state.errors), ..self.state },
            ..self
        }
    }

    /// A command is noted as being in flight, if the caller wants to hear of it.
    pub open spec fn track(self, port: i16, op_code: u32, context: u32) -> Trace {
        if self.state.callers[port as int] {
            Trace {
                state: DispatcherState {
                    in_flight: self.state.in_flight.insert(
                        self.state.seq,
                        SequenceTrackerEntry { op_code, context, caller_port: port },
                    ),
                    ..self.state
                },
                ..self
            }
        } else {
            self
        }
    }

    /// A command goes to a component.
    pub open spec fn dispatch(self, target: i16, op_code: u32, args: Seq<u8>) -> Trace {
        let sent = self.emit(
            Action::CompCmdSend { port: target, op_code, cmd_seq: self.state.seq, args },
        ).report(DispatcherEvent::OpCodeDispatched { op_code, port: target as i32 });
        Trace {
            state: DispatcherState {
                dispatched: counter::bumped(self.state.dispatched),
                ..self.state
            },
            ..sent
        }
    }

    /// A well-formed command comes in.
    pub open spec fn command_in(
        self,
        port: i16,
        op_code: u32,
        args: Seq<u8>,
        context: u32,
    ) -> Trace {
        match self.state.target_of(op_code) {
            None => self.report(
                DispatcherEvent::InvalidCommand { op_code },
            ).count_error().reply(port, op_code, context, CmdResponse::InvalidOpcode).next_seq(),
            Some(target) => if self.state.callers[port as int] && !tracker::has_room(
                self.state.in_flight,
                self.state.seq,
            ) {
                self.report(DispatcherEvent::TooManyCommands { op_code }).reply(
                    port,
                    op_code,
                    context,
                    CmdResponse::ExecutionError,
                )
            } else {
                self.track(port, op_code, context).dispatch(target, op_code, args).next_seq()
            },
        }
    }

    /// A command packet comes in.
    pub open spec fn packet_in(self, port: i16, data: Seq<u8>, context: u32) -> Trace {
        match packet_of(data) {
            Err(status) => self.report(
                DispatcherEvent::MalformedCommand { status: DeserialStatus::of(status) },
            ).reply(
                port,
                0,
                context,
                CmdResponse::ValidationError,
            ),
            Ok(packet) => self.command_in(port, packet.op_code, packet.args, context),
        }
    }

    /// A component answers a command.
    pub open spec fn response_in(self, op_code: u32, cmd_seq: u32, response: CmdResponse) -> Trace {
        let reported = if response == CmdResponse::OK {
            self.report(DispatcherEvent::OpCodeCompleted { op_code })
        } else {
            self.count_error().report(DispatcherEvent::OpCodeError { op_code, error: response })
        };
        let done = Trace {
            state: DispatcherState {
                in_flight: self.state.in_flight.remove(cmd_seq),
                ..reported.state
            },
            ..reported
        };
        if self.state.in_flight.contains_key(cmd_seq) {
            let entry = self.state.in_flight[cmd_seq];
            done.reply(entry.caller_port, op_code, entry.context, response)
        } else {
            done
        }
    }

    /// A number is written to telemetry if it is not the one written last.
    pub open spec fn write(self, id: u32, last: Option<u32>, value: u32) -> Trace {
        if last == Some(value) {
            self
        } else {
            self.emit(Action::Tlm { id, value })
        }
    }

    /// The numbers that have changed are written to telemetry.
    pub open spec fn run(self) -> Trace {
        let s = self.state;
        let written = self.write(
            dictionary::CHANID_COMMANDS_DROPPED,
            s.last_dropped,
            s.dropped,
        ).write(dictionary::CHANID_COMMAND_ERRORS, s.last_errors, s.errors).write(
            dictionary::CHANID_COMMANDS_DISPATCHED,
            s.last_dispatched,
            s.dispatched,
        );
        Trace {
            state: DispatcherState {
                last_dropped: Some(s.dropped),
                last_errors: Some(s.errors),
                last_dispatched: Some(s.dispatched),
                ..s
            },
            ..written
        }
    }

    /// A command packet finds the queue full.
    pub open spec fn overflow(self, data: Seq<u8>, context: u32) -> Trace {
        let op_code = match packet_of(data) {
            Ok(packet) => packet.op_code,
            Err(_) => 0,
        };
        let dropped = Trace {
            state: DispatcherState {
                dropped: counter::bumped(self.state.dropped),
                dropped_throttle: self.state.dropped_throttle.tried(),
                ..self.state
            },
            ..self
        };
        if self.state.dropped_throttle.open() {
            dropped.report(DispatcherEvent::CommandDroppedQueueOverflow { op_code, context })
        } else {
            dropped
        }
    }

    /// The command to do nothing.
    pub open spec fn no_op(self, op_code: u32, cmd_seq: u32, args: Seq<u8>) -> Trace {
        if args.len() != 0 {
            self.answer(op_code, cmd_seq, CmdResponse::FormatError)
        } else {
            self.report(DispatcherEvent::NoOpReceived).answer(op_code, cmd_seq, CmdResponse::OK)
        }
    }

    /// The command to do nothing but report a string.
    pub open spec fn no_op_string(self, op_code: u32, cmd_seq: u32, args: Seq<u8>) -> Trace {
        match bytes::string_read(args, 0, CMD_STRING_MAX_SIZE as int) {
            Ok(message) if args.len() == 2 + message.len() => self.report(
                DispatcherEvent::NoOpStringReceived { message },
            ).answer(op_code, cmd_seq, CmdResponse::OK),
            _ => self.answer(op_code, cmd_seq, CmdResponse::FormatError),
        }
    }

    /// The command to report arguments of several types.
    pub open spec fn test_cmd_1(self, op_code: u32, cmd_seq: u32, args: Seq<u8>) -> Trace {
        if args.len() != 9 {
            self.answer(op_code, cmd_seq, CmdResponse::FormatError)
        } else {
            self.report(
                DispatcherEvent::TestCmd1Args {
                    arg1: bytes::signed32(bytes::u32_at(args, 0)),
                    arg2: bytes::u32_at(args, 4),
                    arg3: args[8],
                },
            ).answer(op_code, cmd_seq, CmdResponse::OK)
        }
    }

    /// The command to forget the commands in flight.
    pub open spec fn clear_tracking(self, op_code: u32, cmd_seq: u32, args: Seq<u8>) -> Trace {
        if args.len() != 0 {
            self.answer(op_code, cmd_seq, CmdResponse::FormatError)
        } else {
            Trace {
                state: DispatcherState { in_flight: Map::empty(), ..self.state },
                ..self
            }.answer(op_code, cmd_seq, CmdResponse::OK)
        }
    }

    /// A command to the dispatcher itself comes in.
    pub open spec fn own_command(self, op_code: u32, cmd_seq: u32, args: Seq<u8>) -> Trace {
        let local = counter::offset_from(op_code, self.state.id_base);
        if local == dictionary::OPCODE_CMD_NO_OP {
            self.no_op(op_code, cmd_seq, args)
        } else if local == dictionary::OPCODE_CMD_NO_OP_STRING {
            self.no_op_string(op_code, cmd_seq, args)
        } else if local == dictionary::OPCODE_CMD_TEST_CMD_1 {
            self.test_cmd_1(op_code, cmd_seq, args)
        } else if local == dictionary::OPCODE_CMD_CLEAR_TRACKING {
            self.clear_tracking(op_code, cmd_seq, args)
        } else {
            self.answer(op_code, cmd_seq, CmdResponse::InvalidOpcode)
        }
    }
}

} // verus!
