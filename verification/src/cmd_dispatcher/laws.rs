//! What holds of the dispatcher as a whole.
use vstd::prelude::*;

use super::dictionary::{Action, DispatcherEvent, SEQUENCER_TABLE_SIZE, SEQUENCE_PORTS};
use super::model;
use super::model::{DispatcherState, Trace};
use super::tracker;
use super::tracker::SequenceTrackerEntry;
use crate::fw::bytes;
use crate::fw::counter;
use crate::fw::throttle;
use crate::fw::types::CmdResponse;

verus! {

broadcast use crate::fw::bytes::lemma_be32_len;

/// A command that was put in a packet comes out of it.
pub proof fn law_packet_round_trip(op_code: u32, args: Seq<u8>)
    ensures
        model::packet_of(model::packet_wire(op_code, args)) == Ok::<_, bytes::SerializeStatus>(
            model::CommandPacket { op_code, args },
        ),
{
    let data = model::packet_wire(op_code, args);
    let e = Seq::<u8>::empty();
    let front = bytes::be16(0u16);
    assert(data =~= e + front + (bytes::be32(op_code) + args));
    bytes::law_u16_round_trip(e, 0, bytes::be32(op_code) + args);
    bytes::law_u32_round_trip(front, op_code, args);
    assert(data.skip(6) =~= args);
}

/// Whether a command is sent on: a component takes it, and where its caller wants to hear
/// of it, it can be noted as being in flight.
pub open spec fn sent_on(s: DispatcherState, port: i16, op_code: u32) -> bool {
    &&& s.target_of(op_code) is Some
    &&& s.callers[port as int] ==> tracker::has_room(s.in_flight, s.seq)
}

/// A command of a caller who listens is either answered at once or noted as being in
/// flight under the sequence number that it is sent on with; never both, and never
/// neither.
pub proof fn law_answered_or_in_flight(t: Trace, port: i16, data: Seq<u8>, context: u32)
    requires
        t.state.valid(),
        t.state.takes_packet(port as int, data),
        t.state.callers[port as int],
    ensures
        ({
            let after = t.packet_in(port, data, context);
            match model::packet_of(data) {
                Ok(p) if sent_on(t.state, port, p.op_code) => {
                    &&& after.out == t.out.push(
                        Action::CompCmdSend {
                            port: t.state.target_of(p.op_code)->0,
                            op_code: p.op_code,
                            cmd_seq: t.state.seq,
                            args: p.args,
                        },
                    ).push(
                        Action::Event(
                            DispatcherEvent::OpCodeDispatched {
                                op_code: p.op_code,
                                port: t.state.target_of(p.op_code)->0 as i32,
                            },
                        ),
                    )
                    &&& after.state.in_flight == t.state.in_flight.insert(
                        t.state.seq,
                        SequenceTrackerEntry { op_code: p.op_code, context, caller_port: port },
                    )
                },
                _ => {
                    &&& after.state.in_flight == t.state.in_flight
                    &&& after.out.len() == t.out.len() + 2
                    &&& after.out.last() is SeqCmdStatus
                    &&& after.out.last()->SeqCmdStatus_port == port
                    &&& after.out.last()->SeqCmdStatus_context == context
                    &&& after.out.last()->SeqCmdStatus_response != CmdResponse::OK
                },
            }
        }),
{
}

/// The response to a command that was sent on reaches the caller who sent it, under the
/// number that the caller gave, and only once.
pub proof fn law_response_reaches_caller(
    t: Trace,
    port: i16,
    data: Seq<u8>,
    context: u32,
    response: CmdResponse,
)
    requires
        t.state.valid(),
        t.state.takes_packet(port as int, data),
        t.state.callers[port as int],
        model::packet_of(data) is Ok,
        sent_on(t.state, port, model::packet_of(data)->Ok_0.op_code),
    ensures
        ({
            let op_code = model::packet_of(data)->Ok_0.op_code;
            let sent = t.packet_in(port, data, context);
            let done = sent.response_in(op_code, t.state.seq, response);
            let again = done.response_in(op_code, t.state.seq, response);
            &&& sent.state.takes_response(op_code, t.state.seq)
            &&& done.out.len() == sent.out.len() + 2
            &&& done.out.last() == Action::<Seq<u8>>::SeqCmdStatus {
                port,
                op_code,
                context,
                response,
            }
            &&& !done.state.in_flight.contains_key(t.state.seq)
            &&& again.out.len() == done.out.len() + 1
            &&& again.out.last() is Event
        }),
{
}

/// The sequence number goes on with every well-formed command, also where no component
/// takes it; a malformed packet and one too many in flight leave it alone.
pub proof fn law_sequence_number(t: Trace, port: i16, data: Seq<u8>, context: u32)
    requires
        t.state.valid(),
        t.state.takes_packet(port as int, data),
    ensures
        t.packet_in(port, data, context).state.seq == (match model::packet_of(data) {
            Err(_) => t.state.seq,
            Ok(p) => if t.state.target_of(p.op_code) is Some && !sent_on(
                t.state,
                port,
                p.op_code,
            ) {
                t.state.seq
            } else {
                counter::bumped(t.state.seq)
            },
        }),
{
}

/// A command goes to the port that registered its opcode.
pub proof fn law_registered_commands_are_dispatched(
    t: Trace,
    target: i16,
    op_code: u32,
    port: i16,
    args: Seq<u8>,
    context: u32,
)
    requires
        t.state.valid(),
        t.state.takes_registration(target as int, op_code),
        t.state.targets[target as int],
        0 <= port < SEQUENCE_PORTS,
        !t.state.callers[port as int] || tracker::has_room(t.state.in_flight, t.state.seq),
    ensures
        ({
            let registered = t.register(target, op_code);
            let after = registered.command_in(port, op_code, args, context);
            &&& registered.state.target_of(op_code) == Some(target)
            &&& after.out == registered.out.push(
                Action::CompCmdSend { port: target, op_code, cmd_seq: t.state.seq, args },
            ).push(
                Action::Event(
                    DispatcherEvent::OpCodeDispatched { op_code, port: target as i32 },
                ),
            )
        }),
{
}

/// Registering an opcode again for the same port changes nothing but for the report.
pub proof fn law_registration_is_idempotent(t: Trace, port: i16, op_code: u32)
    requires
        t.state.valid(),
        t.state.takes_registration(port as int, op_code),
    ensures
        t.register(port, op_code).state.takes_registration(port as int, op_code),
        t.register(port, op_code).register(port, op_code).state == t.register(port, op_code).state,
        t.register(port, op_code).state.table.contains_key(op_code),
        t.register(port, op_code).state.table[op_code] == port,
        forall|other: u32|
            other != op_code ==> (#[trigger] t.register(
                port,
                op_code,
            ).state.table.contains_key(other) == t.state.table.contains_key(other)),
{
}

/// After the commands in flight were forgotten, no response reaches a caller, and there is
/// room for as many commands as ever.
pub proof fn law_clear_tracking(t: Trace, op_code: u32, cmd_seq: u32, other: u32, seq: u32)
    requires
        t.state.valid(),
    ensures
        ({
            let cleared = t.clear_tracking(op_code, cmd_seq, Seq::empty());
            &&& cleared.state.in_flight.len() == 0
            &&& tracker::has_room(cleared.state.in_flight, cleared.state.seq)
            &&& cleared.state.takes_response(other, seq)
            &&& forall|response: CmdResponse|
                (#[trigger] cleared.response_in(other, seq, response)).out.len()
                    == cleared.out.len() + 1
        }),
{
}

/// No more commands are in flight than can be noted, whatever comes in.
pub proof fn law_in_flight_is_bounded(
    t: Trace,
    port: i16,
    data: Seq<u8>,
    context: u32,
    op_code: u32,
    cmd_seq: u32,
    response: CmdResponse,
)
    requires
        t.state.valid(),
        t.state.takes_packet(port as int, data),
        t.state.takes_response(op_code, cmd_seq),
    ensures
        t.packet_in(port, data, context).state.in_flight.len() <= SEQUENCER_TABLE_SIZE,
        t.response_in(op_code, cmd_seq, response).state.in_flight.len() <= SEQUENCER_TABLE_SIZE,
{
}

/// What has been written to telemetry is not written again until it changes.
pub proof fn law_telemetry_on_change(t: Trace)
    ensures
        t.run().run() == t.run(),
        t.state.last_dropped is None && t.state.last_errors is None && t.state.last_dispatched is None
            ==> t.run().out.len() == t.out.len() + 3,
{
}

/// Every dropped command is counted; only as many as the limit are reported.
pub proof fn law_dropped_commands(t: Trace, data: Seq<u8>, context: u32, n: nat)
    ensures
        t.overflow(data, context).state.dropped == counter::bumped(t.state.dropped),
        t.overflow(data, context).out.len() == t.out.len() + (if t.state.dropped_throttle.open() {
            1int
        } else {
            0int
        }),
        t.state.dropped_throttle.count == 0 ==> (throttle::tried_times(
            t.state.dropped_throttle,
            n,
        ).open() <==> n < t.state.dropped_throttle.limit),
        t.overflow(data, context).state.dropped_throttle == t.state.dropped_throttle.tried(),
{
    if t.state.dropped_throttle.count == 0 {
        throttle::law_throttle_lets_limit_through(t.state.dropped_throttle, n);
    }
}

/// Every command to the dispatcher itself is answered exactly once, as the last thing it
/// leads to.
pub proof fn law_own_commands_are_answered_once(
    t: Trace,
    op_code: u32,
    cmd_seq: u32,
    args: Seq<u8>,
)
    ensures
        ({
            let after = t.own_command(op_code, cmd_seq, args);
            &&& after.out.last() is CmdResponse
            &&& after.out.last()->CmdResponse_op_code == op_code
            &&& after.out.last()->CmdResponse_cmd_seq == cmd_seq
            &&& after.out.len() == t.out.len() + 1 || {
                &&& after.out.len() == t.out.len() + 2
                &&& after.out[t.out.len() as int] is Event
            }
            &&& forall|i: int| 0 <= i < t.out.len() ==> #[trigger] after.out[i] == t.out[i]
        }),
{
}

} // verus!
