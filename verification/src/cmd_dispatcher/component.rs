//! The command dispatcher.
use std::collections::BTreeMap;
use vstd::prelude::*;

use super::dictionary;
use super::dictionary::{
    Action, DispatcherEvent, CMD_STRING_MAX_SIZE, COMMAND_PORTS,
    DISPATCH_TABLE_SIZE, FW_PACKET_COMMAND, SEQUENCE_PORTS,
};
use super::model;
use super::model::{CommandPacket, DispatcherState, Trace};
use super::tracker::{SequenceTracker, SequenceTrackerEntry};
use crate::fw::bytes;
use crate::fw::bytes::{DeserialStatus, SerializeStatus};
use crate::fw::counter;
use crate::fw::envelope::COM_BUFFER_MAX_SIZE;
use crate::fw::outputs;
use crate::fw::throttle::EventThrottle;
use crate::fw::types::CmdResponse;

verus! {

/// Sends commands to the components that registered their opcodes, and tells the callers
/// how the commands went.
#[derive(Debug)]
pub struct CmdDispatcher {
    id_base: u32,
    targets: Vec<bool>,
    callers: Vec<bool>,
    entry_table: BTreeMap<u32, i16>,
    sequence_tracker: SequenceTracker,
    seq: u32,
    num_cmds_dispatched: u32,
    num_cmd_errors: u32,
    num_cmds_dropped: u32,
    last_dispatched: Option<u32>,
    last_errors: Option<u32>,
    last_dropped: Option<u32>,
    dropped_throttle: EventThrottle,
}

impl View for CmdDispatcher {
    type V = DispatcherState;

    closed spec fn view(&self) -> DispatcherState {
        DispatcherState {
            id_base: self.id_base,
            targets: self.targets@,
            callers: self.callers@,
            table: self.entry_table@,
            in_flight: self.sequence_tracker@,
            seq: self.seq,
            dispatched: self.num_cmds_dispatched,
            errors: self.num_cmd_errors,
            dropped: self.num_cmds_dropped,
            last_dispatched: self.last_dispatched,
            last_errors: self.last_errors,
            last_dropped: self.last_dropped,
            dropped_throttle: self.dropped_throttle,
        }
    }
}

/// The state of the dispatcher with a list of outputs.
pub open spec fn trace(c: CmdDispatcher, out: Seq<Action>) -> Trace {
    Trace { state: c@, out: outputs::views(out) }
}

/// Ports that are not connected.
fn unconnected(n: usize) -> (r: Vec<bool>)
    ensures
        r@ == Seq::new(n as nat, |i: int| false),
{
    let mut ports: Vec<bool> = Vec::new();
    let mut i: usize = 0;
    while i < n
        invariant
            i <= n,
            ports@ == Seq::new(i as nat, |k: int| false),
        decreases n - i,
    {
        ports.push(false);
        i += 1;
        assert(ports@ =~= Seq::new(i as nat, |k: int| false));
    }
    ports
}

impl CommandPacket<Vec<u8>> {
    /// Takes a command packet apart.
    pub fn decode(data: &[u8]) -> (r: Result<Self, SerializeStatus>)
        ensures
            match r {
                Ok(packet) => model::packet_of(data@) == Ok::<_, SerializeStatus>(
                    CommandPacket { op_code: packet.op_code, args: packet.args@ },
                ),
                Err(status) => model::packet_of(data@) == Err::<CommandPacket<Seq<u8>>, _>(status),
            },
    {
        match bytes::read_u16(data, 0) {
            Err(status) => Err(status),
            Ok(descriptor) => {
                if descriptor != FW_PACKET_COMMAND {
                    return Err(SerializeStatus::DeserTypeMismatch);
                }
                match bytes::read_u32(data, 2) {
                    Err(status) => Err(status),
                    Ok(op_code) => {
                        let args: Vec<u8> = bytes::copy_range(data, 6, data.len());
                        assert(args@ =~= data@.skip(6));
                        Ok(CommandPacket { op_code, args })
                    },
                }
            },
        }
    }
}

impl CmdDispatcher {
    /// The conditions that every operation keeps.
    pub open spec fn wf(self) -> bool {
        self@.valid()
    }

    /// A dispatcher with nothing registered and nothing connected.
    pub fn new(id_base: u32) -> (r: Self)
        ensures
            r.wf(),
            r@ == DispatcherState::initial(id_base),
    {
        CmdDispatcher {
            id_base,
            targets: unconnected(COMMAND_PORTS),
            callers: unconnected(SEQUENCE_PORTS),
            entry_table: BTreeMap::new(),
            sequence_tracker: SequenceTracker::new(),
            seq: 0,
            num_cmds_dispatched: 0,
            num_cmd_errors: 0,
            num_cmds_dropped: 0,
            last_dispatched: None,
            last_errors: None,
            last_dropped: None,
            dropped_throttle: EventThrottle::new(dictionary::COMMAND_DROPPED_THROTTLE),
        }
    }

    /// Connects the port to a component.
    pub fn connect_comp_cmd_send(&mut self, port: usize)
        requires
            old(self).wf(),
            port < COMMAND_PORTS,
        ensures
            final(self).wf(),
            final(self)@ == (DispatcherState {
                targets: old(self)@.targets.update(port as int, true),
                ..old(self)@
            }),
    {
        self.targets.set(port, true);
    }

    /// Connects the port back to a caller.
    pub fn connect_seq_cmd_status(&mut self, port: usize)
        requires
            old(self).wf(),
            port < SEQUENCE_PORTS,
        ensures
            final(self).wf(),
            final(self)@ == (DispatcherState {
                callers: old(self)@.callers.update(port as int, true),
                ..old(self)@
            }),
    {
        self.callers.set(port, true);
    }

    /// Registers the commands to the dispatcher itself.
    pub fn reg_commands(&self, out: &mut Vec<Action>)
        requires
            self@.id_base + dictionary::OPCODE_CMD_CLEAR_TRACKING <= u32::MAX,
        ensures
            outputs::views(final(out)@) == outputs::views(old(out)@) + seq![
                Action::CmdReg { op_code: self@.id_base },
                Action::CmdReg { op_code: (self@.id_base + 1) as u32 },
                Action::CmdReg { op_code: (self@.id_base + 2) as u32 },
                Action::CmdReg { op_code: (self@.id_base + 3) as u32 },
            ],
    {
        outputs::emit(out, Action::CmdReg { op_code: self.id_base + dictionary::OPCODE_CMD_NO_OP });
        outputs::emit(
            out,
            Action::CmdReg { op_code: self.id_base + dictionary::OPCODE_CMD_NO_OP_STRING },
        );
        outputs::emit(
            out,
            Action::CmdReg { op_code: self.id_base + dictionary::OPCODE_CMD_TEST_CMD_1 },
        );
        outputs::emit(
            out,
            Action::CmdReg { op_code: self.id_base + dictionary::OPCODE_CMD_CLEAR_TRACKING },
        );
    }

    /// The port that an opcode is registered for.
    fn registered(&self, op_code: u32) -> (r: Option<i16>)
        ensures
            match r {
                Some(port) => self@.table.contains_key(op_code) && port == self@.table[op_code],
                None => !self@.table.contains_key(op_code),
            },
    {
        broadcast use vstd::std_specs::btree::group_btree_axioms;

        match self.entry_table.get(&op_code) {
            Some(port) => Some(*port),
            None => None,
        }
    }

    /// Whether an opcode can be registered for a port.
    pub fn takes_registration(&self, port: i16, op_code: u32) -> (r: bool)
        requires
            self.wf(),
        ensures
            r == self@.takes_registration(port as int, op_code),
    {
        broadcast use vstd::std_specs::btree::group_btree_axioms;

        port >= 0 && (port as usize) < COMMAND_PORTS && match self.registered(op_code) {
            Some(existing) => existing == port,
            None => self.entry_table.len() < DISPATCH_TABLE_SIZE,
        }
    }

    /// Whether a command packet can be taken.
    pub fn takes_packet(&self, port: i16, data: &Vec<u8>) -> (r: bool)
        ensures
            r == self@.takes_packet(port as int, data@),
    {
        port >= 0 && (port as usize) < SEQUENCE_PORTS && data.len() <= COM_BUFFER_MAX_SIZE
    }

    /// Whether a response can be taken.
    pub fn takes_response(&self, op_code: u32, cmd_seq: u32) -> (r: bool)
        ensures
            r == self@.takes_response(op_code, cmd_seq),
    {
        match self.sequence_tracker.get(cmd_seq) {
            Some(entry) => entry.op_code == op_code,
            None => true,
        }
    }

    /// Reports an event.
    fn report(&self, event: DispatcherEvent, out: &mut Vec<Action>)
        ensures
            trace(*self, final(out)@) == trace(*self, old(out)@).report(event@),
    {
        outputs::emit(out, Action::Event(event));
    }

    /// Answers a command to the dispatcher itself.
    fn answer(&self, op_code: u32, cmd_seq: u32, response: CmdResponse, out: &mut Vec<Action>)
        ensures
            trace(*self, final(out)@) == trace(*self, old(out)@).answer(op_code, cmd_seq, response),
    {
        outputs::emit(out, Action::CmdResponse { op_code, cmd_seq, response });
    }

    /// Registers an opcode for the component at a port.
    pub fn comp_cmd_reg_in(&mut self, port: i16, op_code: u32, out: &mut Vec<Action>)
        requires
            old(self).wf(),
            old(self)@.takes_registration(port as int, op_code),
        ensures
            final(self).wf(),
            trace(*final(self), final(out)@) == trace(*old(self), old(out)@).register(
                port,
                op_code,
            ),
    {
        broadcast use vstd::std_specs::btree::group_btree_axioms;

        let ghost t = trace(*self, out@);
        match self.registered(op_code) {
            Some(_) => {
                self.report(
                    DispatcherEvent::OpCodeReregistered { op_code, port: port as i32 },
                    out,
                );
            },
            None => {
                let slot: i32 = self.entry_table.len() as i32;
                let _ = self.entry_table.insert(op_code, port);
                self.report(
                    DispatcherEvent::OpCodeRegistered { op_code, port: port as i32, slot },
                    out,
                );
            },
        }
        assert(trace(*self, out@) =~= t.register(port, op_code));
    }

    /// Tells a caller how a command went, if anyone is there.
    fn seq_status_reply(
        &self,
        port: i16,
        op_code: u32,
        context: u32,
        response: CmdResponse,
        out: &mut Vec<Action>,
    )
        requires
            self.wf(),
            0 <= port < SEQUENCE_PORTS,
        ensures
            trace(*self, final(out)@) == trace(*self, old(out)@).reply(
                port,
                op_code,
                context,
                response,
            ),
    {
        if self.callers[port as usize] {
            outputs::emit(out, Action::SeqCmdStatus { port, op_code, context, response });
        }
    }

    /// The port that leads to the component that takes a command, if it is connected.
    fn target_of(&self, op_code: u32) -> (r: Option<i16>)
        requires
            self.wf(),
        ensures
            r == self@.target_of(op_code),
    {
        match self.registered(op_code) {
            Some(port) => if self.targets[port as usize] {
                Some(port)
            } else {
                None
            },
            None => None,
        }
    }

    /// A well-formed command comes in.
    fn command_in(
        &mut self,
        port: i16,
        op_code: u32,
        args: Vec<u8>,
        context: u32,
        out: &mut Vec<Action>,
    )
        requires
            old(self).wf(),
            0 <= port < SEQUENCE_PORTS,
        ensures
            final(self).wf(),
            trace(*final(self), final(out)@) == trace(*old(self), old(out)@).command_in(
                port,
                op_code,
                args@,
                context,
            ),
    {
        let ghost t = trace(*self, out@);
        let seq: u32 = self.seq;
        match self.target_of(op_code) {
            None => {
                self.report(DispatcherEvent::InvalidCommand { op_code }, out);
                self.num_cmd_errors = counter::bump(self.num_cmd_errors);
                self.seq_status_reply(port, op_code, context, CmdResponse::InvalidOpcode, out);
            },
            Some(target) => {
                if self.callers[port as usize] {
                    let entry = SequenceTrackerEntry { op_code, context, caller_port: port };
                    if !self.sequence_tracker.insert(seq, entry) {
                        self.report(DispatcherEvent::TooManyCommands { op_code }, out);
                        self.seq_status_reply(
                            port,
                            op_code,
                            context,
                            CmdResponse::ExecutionError,
                            out,
                        );
                        return;
                    }
                }
                outputs::emit(out, Action::CompCmdSend { port: target, op_code, cmd_seq: seq, args });
                self.report(
                    DispatcherEvent::OpCodeDispatched { op_code, port: target as i32 },
                    out,
                );
                self.num_cmds_dispatched = counter::bump(self.num_cmds_dispatched);
            },
        }
        self.seq = counter::bump(self.seq);
        assert(trace(*self, out@) =~= t.command_in(port, op_code, args@, context));
    }

    /// A command packet comes in at a port.
    pub fn seq_cmd_buff_in(&mut self, port: i16, data: &[u8], context: u32, out: &mut Vec<Action>)
        requires
            old(self).wf(),
            old(self)@.takes_packet(port as int, data@),
        ensures
            final(self).wf(),
            trace(*final(self), final(out)@) == trace(*old(self), old(out)@).packet_in(
                port,
                data@,
                context,
            ),
    {
        match CommandPacket::decode(data) {
            Err(status) => {
                self.report(
                    DispatcherEvent::MalformedCommand {
                        status: DeserialStatus::from_status(status),
                    },
                    out,
                );
                self.seq_status_reply(port, 0, context, CmdResponse::ValidationError, out);
            },
            Ok(packet) => {
                self.command_in(port, packet.op_code, packet.args, context, out);
            },
        }
    }

    /// A component answers a command.
    pub fn comp_cmd_stat_in(
        &mut self,
        op_code: u32,
        cmd_seq: u32,
        response: CmdResponse,
        out: &mut Vec<Action>,
    )
        requires
            old(self).wf(),
            old(self)@.takes_response(op_code, cmd_seq),
        ensures
            final(self).wf(),
            trace(*final(self), final(out)@) == trace(*old(self), old(out)@).response_in(
                op_code,
                cmd_seq,
                response,
            ),
    {
        let ghost t = trace(*self, out@);
        if response == CmdResponse::OK {
            self.report(DispatcherEvent::OpCodeCompleted { op_code }, out);
        } else {
            self.num_cmd_errors = counter::bump(self.num_cmd_errors);
            self.report(DispatcherEvent::OpCodeError { op_code, error: response }, out);
        }
        match self.sequence_tracker.remove(cmd_seq) {
            Some(entry) => {
                self.seq_status_reply(entry.caller_port, op_code, entry.context, response, out);
            },
            None => {},
        }
        assert(trace(*self, out@) =~= t.response_in(op_code, cmd_seq, response));
    }

    /// Writes a number to telemetry if it is not the one written last.
    fn write(&self, id: u32, last: Option<u32>, value: u32, out: &mut Vec<Action>)
        ensures
            trace(*self, final(out)@) == trace(*self, old(out)@).write(id, last, value),
    {
        let unchanged: bool = match last {
            Some(v) => v == value,
            None => false,
        };
        if !unchanged {
            outputs::emit(out, Action::Tlm { id, value });
        }
    }

    /// Writes the numbers that have changed to telemetry.
    pub fn run_in(&mut self, out: &mut Vec<Action>)
        requires
            old(self).wf(),
        ensures
            final(self).wf(),
            trace(*final(self), final(out)@) == trace(*old(self), old(out)@).run(),
    {
        let ghost t = trace(*self, out@);
        self.write(
            dictionary::CHANID_COMMANDS_DROPPED,
            self.last_dropped,
            self.num_cmds_dropped,
            out,
        );
        self.write(dictionary::CHANID_COMMAND_ERRORS, self.last_errors, self.num_cmd_errors, out);
        self.write(
            dictionary::CHANID_COMMANDS_DISPATCHED,
            self.last_dispatched,
            self.num_cmds_dispatched,
            out,
        );
        self.last_dropped = Some(self.num_cmds_dropped);
        self.last_errors = Some(self.num_cmd_errors);
        self.last_dispatched = Some(self.num_cmds_dispatched);
        assert(trace(*self, out@) =~= t.run());
    }

    /// Answers a ping.
    pub fn ping_in(&self, key: u32, out: &mut Vec<Action>)
        ensures
            trace(*self, final(out)@) == trace(*self, old(out)@).emit(Action::PingOut { key }),
    {
        outputs::emit(out, Action::PingOut { key });
    }

    /// A command packet finds the queue full and is dropped.
    pub fn seq_cmd_buff_overflow(&mut self, data: &[u8], context: u32, out: &mut Vec<Action>)
        requires
            old(self).wf(),
        ensures
            final(self).wf(),
            trace(*final(self), final(out)@) == trace(*old(self), old(out)@).overflow(
                data@,
                context,
            ),
    {
        let ghost t = trace(*self, out@);
        let op_code: u32 = match CommandPacket::decode(data) {
            Ok(packet) => packet.op_code,
            Err(_) => 0,
        };
        if self.dropped_throttle.should_emit() {
            self.report(DispatcherEvent::CommandDroppedQueueOverflow { op_code, context }, out);
        }
        self.num_cmds_dropped = counter::bump(self.num_cmds_dropped);
        assert(trace(*self, out@) =~= t.overflow(data@, context));
    }

    /// The command to do nothing.
    fn cmd_no_op(&self, op_code: u32, cmd_seq: u32, args: &[u8], out: &mut Vec<Action>)
        ensures
            trace(*self, final(out)@) == trace(*self, old(out)@).no_op(op_code, cmd_seq, args@),
    {
        if args.len() != 0 {
            self.answer(op_code, cmd_seq, CmdResponse::FormatError, out);
            return;
        }
        self.report(DispatcherEvent::NoOpReceived, out);
        self.answer(op_code, cmd_seq, CmdResponse::OK, out);
    }

    /// The command to do nothing but report a string.
    fn cmd_no_op_string(&self, op_code: u32, cmd_seq: u32, args: &[u8], out: &mut Vec<Action>)
        ensures
            trace(*self, final(out)@) == trace(*self, old(out)@).no_op_string(
                op_code,
                cmd_seq,
                args@,
            ),
    {
        match bytes::read_string(args, 0, CMD_STRING_MAX_SIZE) {
            Ok(message) => {
                if args.len() != 2 + message.len() {
                    self.answer(op_code, cmd_seq, CmdResponse::FormatError, out);
                    return;
                }
                self.report(DispatcherEvent::NoOpStringReceived { message }, out);
                self.answer(op_code, cmd_seq, CmdResponse::OK, out);
            },
            Err(_) => {
                self.answer(op_code, cmd_seq, CmdResponse::FormatError, out);
            },
        }
    }

    /// The command to report arguments of several types.
    fn cmd_test_cmd_1(&self, op_code: u32, cmd_seq: u32, args: &[u8], out: &mut Vec<Action>)
        ensures
            trace(*self, final(out)@) == trace(*self, old(out)@).test_cmd_1(
                op_code,
                cmd_seq,
                args@,
            ),
    {
        if args.len() != 9 {
            self.answer(op_code, cmd_seq, CmdResponse::FormatError, out);
            return;
        }
        match (bytes::read_u32(args, 0), bytes::read_u32(args, 4)) {
            (Ok(first), Ok(arg2)) => {
                self.report(
                    DispatcherEvent::TestCmd1Args {
                        arg1: bytes::to_signed32(first),
                        arg2,
                        arg3: args[8],
                    },
                    out,
                );
                self.answer(op_code, cmd_seq, CmdResponse::OK, out);
            },
            _ => {},
        }
    }

    /// The command to forget the commands in flight.
    fn cmd_clear_tracking(
        &mut self,
        op_code: u32,
        cmd_seq: u32,
        args: &[u8],
        out: &mut Vec<Action>,
    )
        requires
            old(self).wf(),
        ensures
            final(self).wf(),
            trace(*final(self), final(out)@) == trace(*old(self), old(out)@).clear_tracking(
                op_code,
                cmd_seq,
                args@,
            ),
    {
        let ghost t = trace(*self, out@);
        if args.len() != 0 {
            self.answer(op_code, cmd_seq, CmdResponse::FormatError, out);
            return;
        }
        self.sequence_tracker.clear();
        self.answer(op_code, cmd_seq, CmdResponse::OK, out);
        assert(trace(*self, out@) =~= t.clear_tracking(op_code, cmd_seq, args@));
    }

    /// A command to the dispatcher itself comes in.
    pub fn cmd_in(&mut self, op_code: u32, cmd_seq: u32, args: &[u8], out: &mut Vec<Action>)
        requires
            old(self).wf(),
        ensures
            final(self).wf(),
            trace(*final(self), final(out)@) == trace(*old(self), old(out)@).own_command(
                op_code,
                cmd_seq,
                args@,
            ),
    {
        let local: u32 = counter::offset(op_code, self.id_base);
        if local == dictionary::OPCODE_CMD_NO_OP {
            self.cmd_no_op(op_code, cmd_seq, args, out);
        } else if local == dictionary::OPCODE_CMD_NO_OP_STRING {
            self.cmd_no_op_string(op_code, cmd_seq, args, out);
        } else if local == dictionary::OPCODE_CMD_TEST_CMD_1 {
            self.cmd_test_cmd_1(op_code, cmd_seq, args, out);
        } else if local == dictionary::OPCODE_CMD_CLEAR_TRACKING {
            self.cmd_clear_tracking(op_code, cmd_seq, args, out);
        } else {
            self.answer(op_code, cmd_seq, CmdResponse::InvalidOpcode, out);
        }
    }

    /// The number that the component's identifiers start at.
    pub fn id_base(&self) -> (r: u32)
        ensures
            r == self@.id_base,
    {
        self.id_base
    }
}

} // verus!
