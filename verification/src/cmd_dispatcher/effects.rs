//! What each input does to the dispatcher and what it puts out, and that it does nothing
//! else.
use vstd::prelude::*;

use super::dictionary::{Action, DispatcherEvent, SEQUENCE_PORTS};
use super::messages::{Content, Message};
use super::model::{DispatcherState, Trace};
use super::tracker::SequenceTrackerEntry;
use crate::fw::bytes;
use crate::fw::bytes::DeserialStatus;
use crate::fw::counter;
use crate::fw::throttle::EventThrottle;
use crate::fw::types::CmdResponse;

verus! {

broadcast use crate::fw::bytes::lemma_be32_len;

/// An answer is reported, ends the command that it answers and no other: every other
/// command in flight stays in flight, with the caller and the number that it was noted
/// with. The caller of the command is told if it listens. An answer other than success is
/// counted as an error, and nothing else changes.
pub proof fn law_answer_ends_one_command(
    t: Trace,
    op_code: u32,
    cmd_seq: u32,
    response: CmdResponse,
)
    requires
        t.state.valid(),
        t.state.takes_response(op_code, cmd_seq),
    ensures
        ({
            let s = t.state;
            let after = t.response_in(op_code, cmd_seq, response);
            let n = t.out.len() as int;
            let told = s.in_flight.contains_key(cmd_seq)
                && s.callers[s.in_flight[cmd_seq].caller_port as int];
            &&& forall|k: u32|
                k != cmd_seq ==> (#[trigger] after.state.in_flight.contains_key(k)
                    <==> s.in_flight.contains_key(k))
            &&& forall|k: u32|
                k != cmd_seq && s.in_flight.contains_key(k)
                    ==> #[trigger] after.state.in_flight[k] == s.in_flight[k]
            &&& !after.state.in_flight.contains_key(cmd_seq)
            &&& after.state.errors == if response == CmdResponse::OK {
                s.errors as int
            } else {
                (s.errors + 1) % 0x1_0000_0000
            }
            &&& after.state == (DispatcherState {
                in_flight: after.state.in_flight,
                errors: after.state.errors,
                ..s
            })
            &&& after.out.len() == n + if told {
                2int
            } else {
                1int
            }
            &&& after.out.take(n) == t.out
            &&& after.out[n] == Action::<Seq<u8>>::Event(
                if response == CmdResponse::OK {
                    DispatcherEvent::OpCodeCompleted { op_code }
                } else {
                    DispatcherEvent::OpCodeError { op_code, error: response }
                },
            )
            &&& told ==> after.out[n + 1] == Action::<Seq<u8>>::SeqCmdStatus {
                port: s.in_flight[cmd_seq].caller_port,
                op_code,
                context: s.in_flight[cmd_seq].context,
                response,
            }
        }),
{
    assert(t.response_in(op_code, cmd_seq, response).out.take(t.out.len() as int) =~= t.out);
}

/// With two commands in flight, their answers may come in either order: each reaches the
/// caller of its own command, with the number that this caller gave, and in the end both
/// commands are done and the dispatcher is as it would be the other way round.
pub proof fn law_answers_in_either_order(
    t: Trace,
    first: u32,
    second: u32,
    one: CmdResponse,
    other: CmdResponse,
)
    requires
        t.state.valid(),
        first != second,
        t.state.in_flight.contains_key(first),
        t.state.in_flight.contains_key(second),
        t.state.callers[t.state.in_flight[first].caller_port as int],
        t.state.callers[t.state.in_flight[second].caller_port as int],
    ensures
        ({
            let a = t.state.in_flight[first];
            let b = t.state.in_flight[second];
            let answered = t.response_in(a.op_code, first, one);
            let both = answered.response_in(b.op_code, second, other);
            let reversed = t.response_in(b.op_code, second, other).response_in(
                a.op_code,
                first,
                one,
            );
            &&& answered.state.takes_response(b.op_code, second)
            &&& answered.out.last() == Action::<Seq<u8>>::SeqCmdStatus {
                port: a.caller_port,
                op_code: a.op_code,
                context: a.context,
                response: one,
            }
            &&& both.out.last() == Action::<Seq<u8>>::SeqCmdStatus {
                port: b.caller_port,
                op_code: b.op_code,
                context: b.context,
                response: other,
            }
            &&& !both.state.in_flight.contains_key(first)
            &&& !both.state.in_flight.contains_key(second)
            &&& reversed.state == both.state
            &&& reversed.out.last() == answered.out.last()
        }),
{
    let a = t.state.in_flight[first];
    let b = t.state.in_flight[second];
    let both = t.response_in(a.op_code, first, one).response_in(b.op_code, second, other);
    let reversed = t.response_in(b.op_code, second, other).response_in(a.op_code, first, one);
    assert(reversed.state.in_flight =~= both.state.in_flight);
}

/// Registering an opcode adds it to the table for its port, in the next free place, and
/// leaves every other opcode with its port. Registering it again is only reported.
pub proof fn law_registration_adds_one_opcode(t: Trace, port: i16, op_code: u32)
    requires
        t.state.valid(),
        t.state.takes_registration(port as int, op_code),
    ensures
        ({
            let s = t.state;
            let after = t.register(port, op_code);
            &&& forall|k: u32|
                k != op_code ==> (#[trigger] after.state.table.contains_key(k)
                    <==> s.table.contains_key(k))
            &&& forall|k: u32|
                k != op_code && s.table.contains_key(k) ==> #[trigger] after.state.table[k]
                    == s.table[k]
            &&& after.state.table.contains_key(op_code)
            &&& after.state.table[op_code] == port
            &&& after.state == (DispatcherState { table: after.state.table, ..s })
            &&& after.out == t.out.push(
                Action::Event(
                    if s.table.contains_key(op_code) {
                        DispatcherEvent::OpCodeReregistered { op_code, port: port as i32 }
                    } else {
                        DispatcherEvent::OpCodeRegistered {
                            op_code,
                            port: port as i32,
                            slot: s.table.len() as i32,
                        }
                    },
                ),
            )
        }),
{
}

/// A command that no connected component takes is reported, counted as an error and
/// answered, and the sequence number goes on. Nothing is sent and nothing is noted.
pub proof fn law_unknown_command(t: Trace, port: i16, op_code: u32, args: Seq<u8>, context: u32)
    requires
        t.state.valid(),
        0 <= port < SEQUENCE_PORTS,
        !t.state.table.contains_key(op_code)
            || !t.state.targets[t.state.table[op_code] as int],
    ensures
        ({
            let s = t.state;
            let after = t.command_in(port, op_code, args, context);
            let reported = t.out.push(Action::Event(DispatcherEvent::InvalidCommand { op_code }));
            &&& after.state.errors == (s.errors + 1) % 0x1_0000_0000
            &&& after.state.seq == (s.seq + 1) % 0x1_0000_0000
            &&& after.state == (DispatcherState {
                errors: after.state.errors,
                seq: after.state.seq,
                ..s
            })
            &&& after.out == if s.callers[port as int] {
                reported.push(
                    Action::SeqCmdStatus {
                        port,
                        op_code,
                        context,
                        response: CmdResponse::InvalidOpcode,
                    },
                )
            } else {
                reported
            }
        }),
{
}

/// A command that a connected component takes goes to the port of that component with its
/// arguments and the present sequence number, which then goes on, and is counted. If its
/// caller listens it is noted as being in flight under that number, beside those that are.
/// Nothing else changes.
pub proof fn law_known_command(t: Trace, port: i16, op_code: u32, args: Seq<u8>, context: u32)
    requires
        t.state.valid(),
        0 <= port < SEQUENCE_PORTS,
        t.state.table.contains_key(op_code),
        t.state.targets[t.state.table[op_code] as int],
        t.state.callers[port as int] ==> t.state.in_flight.contains_key(t.state.seq)
            || t.state.in_flight.len() < 25,
    ensures
        ({
            let s = t.state;
            let after = t.command_in(port, op_code, args, context);
            &&& after.out == t.out.push(
                Action::CompCmdSend { port: s.table[op_code], op_code, cmd_seq: s.seq, args },
            ).push(
                Action::Event(
                    DispatcherEvent::OpCodeDispatched { op_code, port: s.table[op_code] as i32 },
                ),
            )
            &&& forall|k: u32|
                k != s.seq || !s.callers[port as int] ==> (
                #[trigger] after.state.in_flight.contains_key(k) <==> s.in_flight.contains_key(k))
            &&& forall|k: u32|
                (k != s.seq || !s.callers[port as int]) && s.in_flight.contains_key(k)
                    ==> #[trigger] after.state.in_flight[k] == s.in_flight[k]
            &&& s.callers[port as int] ==> after.state.in_flight.contains_key(s.seq)
                && after.state.in_flight[s.seq] == (SequenceTrackerEntry {
                op_code,
                context,
                caller_port: port,
            })
            &&& after.state.seq == (s.seq + 1) % 0x1_0000_0000
            &&& after.state.dispatched == (s.dispatched + 1) % 0x1_0000_0000
            &&& after.state == (DispatcherState {
                in_flight: after.state.in_flight,
                seq: after.state.seq,
                dispatched: after.state.dispatched,
                ..s
            })
        }),
{
}

/// A command of a caller who listens that comes when as many are in flight as can be noted
/// is reported and refused, and changes nothing.
pub proof fn law_one_command_too_many(
    t: Trace,
    port: i16,
    op_code: u32,
    args: Seq<u8>,
    context: u32,
)
    requires
        t.state.valid(),
        0 <= port < SEQUENCE_PORTS,
        t.state.table.contains_key(op_code),
        t.state.targets[t.state.table[op_code] as int],
        t.state.callers[port as int],
        !t.state.in_flight.contains_key(t.state.seq),
        t.state.in_flight.len() == 25,
    ensures
        ({
            let after = t.command_in(port, op_code, args, context);
            &&& after.state == t.state
            &&& after.out == t.out.push(
                Action::Event(DispatcherEvent::TooManyCommands { op_code }),
            ).push(
                Action::SeqCmdStatus {
                    port,
                    op_code,
                    context,
                    response: CmdResponse::ExecutionError,
                },
            )
        }),
{
}

/// A packet holds a command when it starts with two zero bytes and four of the opcode, the
/// most significant first; the arguments are all the bytes that follow.
pub proof fn law_packet_holds_command(t: Trace, port: i16, data: Seq<u8>, context: u32, op_code: u32)
    requires
        t.state.valid(),
        data.len() >= 6,
        data[0] == 0,
        data[1] == 0,
        op_code == data[2] * 16777216 + data[3] * 65536 + data[4] * 256 + data[5],
    ensures
        t.packet_in(port, data, context) == t.command_in(
            port,
            op_code,
            data.subrange(6, data.len() as int),
            context,
        ),
{
    bytes::law_numbers_read(data, 0);
    bytes::law_numbers_read(data, 2);
    assert(data.skip(6) =~= data.subrange(6, data.len() as int));
}

/// Any other packet is reported with what is wrong with it and answered as invalid to a
/// caller who listens, and changes nothing.
pub proof fn law_malformed_packet(t: Trace, port: i16, data: Seq<u8>, context: u32)
    requires
        t.state.valid(),
        0 <= port < SEQUENCE_PORTS,
        data.len() < 6 || data[0] != 0 || data[1] != 0,
    ensures
        ({
            let after = t.packet_in(port, data, context);
            let status = if data.len() == 0 {
                DeserialStatus::BufferEmpty
            } else if data.len() == 1 {
                DeserialStatus::SizeMismatch
            } else if data[0] != 0 || data[1] != 0 {
                DeserialStatus::TypeMismatch
            } else if data.len() == 2 {
                DeserialStatus::BufferEmpty
            } else {
                DeserialStatus::SizeMismatch
            };
            let reported = t.out.push(Action::Event(DispatcherEvent::MalformedCommand { status }));
            &&& after.state == t.state
            &&& after.out == if t.state.callers[port as int] {
                reported.push(
                    Action::SeqCmdStatus {
                        port,
                        op_code: 0,
                        context,
                        response: CmdResponse::ValidationError,
                    },
                )
            } else {
                reported
            }
        }),
{
    bytes::law_numbers_read(data, 0);
    bytes::law_numbers_read(data, 2);
}

/// A tick writes each of the three numbers on its channel unless that very number was
/// written last, the dropped commands first, then the errors and the dispatched ones, and
/// remembers what it wrote. It changes nothing else.
pub proof fn law_tick_writes_what_changed(t: Trace)
    ensures
        ({
            let s = t.state;
            let after = t.run();
            let dropped = if s.last_dropped == Some(s.dropped) {
                Seq::empty()
            } else {
                seq![Action::<Seq<u8>>::Tlm { id: 2, value: s.dropped }]
            };
            let errors = if s.last_errors == Some(s.errors) {
                Seq::empty()
            } else {
                seq![Action::<Seq<u8>>::Tlm { id: 1, value: s.errors }]
            };
            let dispatched = if s.last_dispatched == Some(s.dispatched) {
                Seq::empty()
            } else {
                seq![Action::<Seq<u8>>::Tlm { id: 0, value: s.dispatched }]
            };
            &&& after.out == t.out + dropped + errors + dispatched
            &&& after.state == (DispatcherState {
                last_dropped: Some(s.dropped),
                last_errors: Some(s.errors),
                last_dispatched: Some(s.dispatched),
                ..s
            })
        }),
{
    let s = t.state;
    let dropped = if s.last_dropped == Some(s.dropped) {
        Seq::empty()
    } else {
        seq![Action::<Seq<u8>>::Tlm { id: 2, value: s.dropped }]
    };
    let errors = if s.last_errors == Some(s.errors) {
        Seq::empty()
    } else {
        seq![Action::<Seq<u8>>::Tlm { id: 1, value: s.errors }]
    };
    let dispatched = if s.last_dispatched == Some(s.dispatched) {
        Seq::empty()
    } else {
        seq![Action::<Seq<u8>>::Tlm { id: 0, value: s.dispatched }]
    };
    assert(t.run().out =~= t.out + dropped + errors + dispatched);
}

/// A packet that finds the queue full is counted as dropped, and reported while the limit
/// allows, under the opcode it holds (zero where it holds none) and the number that its
/// caller gave. Nothing else changes: no caller is told, and nothing is sent.
pub proof fn law_overflow_only_counts(t: Trace, data: Seq<u8>, context: u32)
    ensures
        ({
            let s = t.state;
            let after = t.overflow(data, context);
            let throttle = s.dropped_throttle;
            let op_code = (if data.len() >= 6 && data[0] == 0 && data[1] == 0 {
                data[2] * 16777216 + data[3] * 65536 + data[4] * 256 + data[5]
            } else {
                0
            }) as u32;
            &&& after.state.dropped == (s.dropped + 1) % 0x1_0000_0000
            &&& after.state.dropped_throttle == if throttle.count < throttle.limit {
                EventThrottle { limit: throttle.limit, count: (throttle.count + 1) as u32 }
            } else {
                throttle
            }
            &&& after.state == (DispatcherState {
                dropped: after.state.dropped,
                dropped_throttle: after.state.dropped_throttle,
                ..s
            })
            &&& after.out == if throttle.count < throttle.limit {
                t.out.push(
                    Action::Event(
                        DispatcherEvent::CommandDroppedQueueOverflow { op_code, context },
                    ),
                )
            } else {
                t.out
            }
        }),
{
    bytes::law_numbers_read(data, 0);
    bytes::law_numbers_read(data, 2);
}

/// The commands to the dispatcher itself: its opcodes are the four that follow its base. The
/// first does nothing, the second reports a string that makes up all of its arguments, the
/// third its three arguments, and the fourth forgets the commands in flight. Only the last
/// changes anything, and only that.
pub proof fn law_own_commands(t: Trace, local: u32, cmd_seq: u32, args: Seq<u8>, op_code: u32)
    requires
        op_code == (t.state.id_base + local) % 0x1_0000_0000,
    ensures
        ({
            let after = t.own_command(op_code, cmd_seq, args);
            let ok = Action::<Seq<u8>>::CmdResponse { op_code, cmd_seq, response: CmdResponse::OK };
            let malformed = Action::<Seq<u8>>::CmdResponse {
                op_code,
                cmd_seq,
                response: CmdResponse::FormatError,
            };
            &&& local == 0 ==> after.state == t.state && after.out == if args.len() == 0 {
                t.out.push(Action::Event(DispatcherEvent::NoOpReceived)).push(ok)
            } else {
                t.out.push(malformed)
            }
            &&& local == 1 ==> after.state == t.state && after.out == if args.len() >= 2
                && args.len() <= 42 && args[0] * 256 + args[1] == args.len() - 2 {
                t.out.push(
                    Action::Event(
                        DispatcherEvent::NoOpStringReceived {
                            message: args.subrange(2, args.len() as int),
                        },
                    ),
                ).push(ok)
            } else {
                t.out.push(malformed)
            }
            &&& local == 2 ==> after.state == t.state && if args.len() == 9 {
                &&& after.out.len() == t.out.len() + 2
                &&& after.out.take(t.out.len() as int) == t.out
                &&& after.out.last() == ok
                &&& after.out[t.out.len() as int] matches Action::Event(
                    DispatcherEvent::TestCmd1Args { arg1, arg2, arg3 },
                )
                &&& arg1 as int % 0x1_0000_0000 == args[0] * 16777216 + args[1] * 65536 + args[2]
                    * 256 + args[3]
                &&& arg2 == args[4] * 16777216 + args[5] * 65536 + args[6] * 256 + args[7]
                &&& arg3 == args[8]
            } else {
                after.out == t.out.push(malformed)
            }
            &&& local == 3 ==> if args.len() == 0 {
                &&& after.out == t.out.push(ok)
                &&& after.state == (DispatcherState { in_flight: after.state.in_flight, ..t.state })
                &&& forall|k: u32| !#[trigger] after.state.in_flight.contains_key(k)
            } else {
                after == (Trace { out: t.out.push(malformed), ..t })
            }
            &&& local > 3 ==> after == (Trace {
                out: t.out.push(
                    Action::CmdResponse { op_code, cmd_seq, response: CmdResponse::InvalidOpcode },
                ),
                ..t
            })
        }),
{
    let after = t.own_command(op_code, cmd_seq, args);
    counter::law_offset_leads_back(op_code, t.state.id_base);
    assert(counter::offset_from(op_code, t.state.id_base) == local);
    bytes::law_strings_read(args, 0, 40);
    bytes::law_numbers_at(args, 0);
    bytes::law_numbers_at(args, 4);
    bytes::law_signed_numbers(0, 0, 0, bytes::u32_at(args, 0));
    if local == 2 && args.len() == 9 {
        assert(after.out.take(t.out.len() as int) =~= t.out);
    }
}

/// Each message does what the input that it stands for does: an answer, a packet at its
/// port, a ping, a tick, or a command to the dispatcher itself. A ping is only answered with
/// its number.
pub proof fn law_messages_are_the_inputs(t: Trace, m: Message<Seq<u8>>)
    ensures
        m.content matches Content::CompCmdStat { op_code, cmd_seq, response } ==> t.handle(m)
            == t.response_in(op_code, cmd_seq, response),
        m.content matches Content::SeqCmdBuff { data, context } ==> t.handle(m) == t.packet_in(
            m.port,
            data,
            context,
        ),
        m.content matches Content::Ping { key } ==> t.handle(m).state == t.state && t.handle(m).out
            == t.out.push(Action::PingOut { key }),
        m.content is Run ==> t.handle(m) == t.run(),
        m.content matches Content::Cmd { op_code, cmd_seq, args } ==> t.handle(m) == t.own_command(
            op_code,
            cmd_seq,
            args,
        ),
{
}

/// At first nothing is registered, connected or in flight, every count is zero and nothing
/// was written.
pub proof fn law_starts_empty(id_base: u32, k: u32, port: int)
    ensures
        ({
            let s = DispatcherState::initial(id_base);
            &&& s.id_base == id_base
            &&& !s.table.contains_key(k)
            &&& !s.in_flight.contains_key(k)
            &&& 0 <= port < 30 ==> !s.targets[port]
            &&& 0 <= port < 5 ==> !s.callers[port]
            &&& s.seq == 0
            &&& s.dispatched == 0
            &&& s.errors == 0
            &&& s.dropped == 0
            &&& s.last_dispatched is None
            &&& s.last_errors is None
            &&& s.last_dropped is None
            &&& s.dropped_throttle == (EventThrottle { limit: 5, count: 0 })
        }),
{
}

/// What can be taken: a registration for a port that exists, of an opcode that has no other
/// port and for which one of 150 places is free or its own; a packet of at most 512 bytes at
/// one of the five ports; and an answer under a number that is not in flight, or is so for the
/// opcode of the answer. Every other message can.
pub proof fn law_what_can_be_taken(
    s: DispatcherState,
    m: Message<Seq<u8>>,
    port: int,
    op_code: u32,
)
    ensures
        s.takes_registration(port, op_code) <==> 0 <= port < 30 && (s.table.contains_key(op_code)
            && s.table[op_code] == port || !s.table.contains_key(op_code) && s.table.len() < 150),
        s.takes_message(m) <==> match m.content {
            Content::CompCmdStat { op_code, cmd_seq, .. } => !s.in_flight.contains_key(cmd_seq)
                || s.in_flight[cmd_seq].op_code == op_code,
            Content::SeqCmdBuff { data, .. } => 0 <= m.port < 5 && data.len() <= 512,
            _ => true,
        },
{
}

/// An answer to a command in flight: its sequence number, and how it went.
pub struct Answer {
    /// The sequence number that the command was sent on with.
    pub cmd_seq: u32,
    /// How it went.
    pub response: CmdResponse,
}

/// What the caller of a command in flight is told.
pub open spec fn told(entry: SequenceTrackerEntry, response: CmdResponse) -> Action<Seq<u8>> {
    Action::SeqCmdStatus {
        port: entry.caller_port,
        op_code: entry.op_code,
        context: entry.context,
        response,
    }
}

/// What comes of answers to commands that are in flight at first, one after the other.
pub open spec fn answered(t: Trace, answers: Seq<Answer>) -> Trace
    decreases answers.len(),
{
    if answers.len() == 0 {
        t
    } else {
        let last = answers.last();
        answered(t, answers.drop_last()).response_in(
            t.state.in_flight[last.cmd_seq].op_code,
            last.cmd_seq,
            last.response,
        )
    }
}

/// Answers end just the commands that they answer.
proof fn lemma_answered(t: Trace, answers: Seq<Answer>)
    requires
        t.state.valid(),
    ensures
        ({
            let s = answered(t, answers).state;
            &&& s.callers == t.state.callers
            &&& forall|k: u32|
                (forall|i: int| 0 <= i < answers.len() ==> (#[trigger] answers[i]).cmd_seq != k)
                    && t.state.in_flight.contains_key(k) ==> #[trigger] s.in_flight.contains_key(k)
                    && s.in_flight[k] == t.state.in_flight[k]
            &&& forall|i: int|
                0 <= i < answers.len() ==> !s.in_flight.contains_key(
                    (#[trigger] answers[i]).cmd_seq,
                )
        }),
    decreases answers.len(),
{
    if answers.len() > 0 {
        let rest = answers.drop_last();
        lemma_answered(t, rest);
        let before = answered(t, rest);
        let s = answered(t, answers).state;
        assert forall|k: u32|
            (forall|i: int| 0 <= i < answers.len() ==> (#[trigger] answers[i]).cmd_seq != k)
                && t.state.in_flight.contains_key(k) implies #[trigger] s.in_flight.contains_key(k)
            && s.in_flight[k] == t.state.in_flight[k] by {
            assert(answers[answers.len() - 1].cmd_seq != k);
            assert forall|i: int| 0 <= i < rest.len() implies (#[trigger] rest[i]).cmd_seq != k by {
                assert(rest[i] == answers[i]);
            }
            assert(before.state.in_flight.contains_key(k));
        }
        assert forall|i: int| 0 <= i < answers.len() implies !s.in_flight.contains_key(
            (#[trigger] answers[i]).cmd_seq,
        ) by {
            if i < rest.len() {
                assert(rest[i] == answers[i]);
                assert(!before.state.in_flight.contains_key(rest[i].cmd_seq));
            }
        }
    }
}

/// However many commands are in flight and in whatever order they are answered, each answer
/// reaches the caller of its own command, under the opcode and the number that belong to it, and
/// in the end none of them is in flight.
pub proof fn law_every_answer_finds_its_caller(t: Trace, answers: Seq<Answer>)
    requires
        t.state.valid(),
        forall|i: int, j: int|
            0 <= i < j < answers.len() ==> (#[trigger] answers[i]).cmd_seq != (
            #[trigger] answers[j]).cmd_seq,
        forall|i: int|
            0 <= i < answers.len() ==> {
                &&& t.state.in_flight.contains_key((#[trigger] answers[i]).cmd_seq)
                &&& t.state.callers[t.state.in_flight[answers[i].cmd_seq].caller_port as int]
            },
    ensures
        forall|i: int|
            0 <= i < answers.len() ==> answered(t, #[trigger] answers.take(i + 1)).out.last()
                == told(t.state.in_flight[answers[i].cmd_seq], answers[i].response),
        forall|i: int|
            0 <= i < answers.len() ==> !answered(t, answers).state.in_flight.contains_key(
                (#[trigger] answers[i]).cmd_seq,
            ),
{
    lemma_answered(t, answers);
    assert forall|i: int| 0 <= i < answers.len() implies answered(
        t,
        #[trigger] answers.take(i + 1),
    ).out.last() == told(t.state.in_flight[answers[i].cmd_seq], answers[i].response) by {
        let so_far = answers.take(i + 1);
        let rest = answers.take(i);
        assert(so_far.drop_last() =~= rest);
        lemma_answered(t, rest);
        let k = answers[i].cmd_seq;
        assert forall|j: int| 0 <= j < rest.len() implies (#[trigger] rest[j]).cmd_seq != k by {
            assert(rest[j] == answers[j]);
            assert(answers[j].cmd_seq != answers[i].cmd_seq);
        }
        assert(answered(t, rest).state.in_flight.contains_key(k));
    }
}

} // verus!
