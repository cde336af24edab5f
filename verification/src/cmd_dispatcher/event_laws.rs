//! What the events of the dispatcher are on the wire.
use vstd::prelude::*;

use super::dictionary::DispatcherEvent;
use crate::fw::bytes;
use crate::fw::types::LogSeverity;

verus! {

broadcast use crate::fw::bytes::lemma_be32_len;

/// Each kind of event has a number of its own.
pub proof fn law_event_numbers(e: DispatcherEvent<Seq<u8>>)
    ensures
        e is OpCodeRegistered <==> e.id_spec() == 0,
        e is OpCodeDispatched <==> e.id_spec() == 1,
        e is OpCodeCompleted <==> e.id_spec() == 2,
        e is OpCodeError <==> e.id_spec() == 3,
        e is MalformedCommand <==> e.id_spec() == 4,
        e is InvalidCommand <==> e.id_spec() == 5,
        e is TooManyCommands <==> e.id_spec() == 6,
        e is NoOpReceived <==> e.id_spec() == 7,
        e is NoOpStringReceived <==> e.id_spec() == 8,
        e is TestCmd1Args <==> e.id_spec() == 9,
        e is OpCodeReregistered <==> e.id_spec() == 10,
        e is CommandDroppedQueueOverflow <==> e.id_spec() == 11,
{
}

/// A command that was not taken is a warning, what becomes of one that was is about commands,
/// a registration is for diagnosis, and the rest is activity.
pub proof fn law_event_severities(e: DispatcherEvent<Seq<u8>>)
    ensures
        e.severity_spec() == LogSeverity::WarningHi <==> e is MalformedCommand || e is InvalidCommand
            || e is TooManyCommands || e is CommandDroppedQueueOverflow,
        e.severity_spec() == LogSeverity::Command <==> e is OpCodeDispatched || e is OpCodeCompleted
            || e is OpCodeError,
        e.severity_spec() == LogSeverity::Diagnostic <==> e is OpCodeRegistered
            || e is OpCodeReregistered,
        e.severity_spec() == LogSeverity::ActivityHi <==> e is NoOpReceived || e is NoOpStringReceived
            || e is TestCmd1Args,
{
}

/// The arguments of an event follow each other in the order in which the event has them, four
/// bytes for a number, one for a status, and a string behind its length.
pub proof fn law_event_arguments(e: DispatcherEvent<Seq<u8>>)
    ensures
        ({
            let w = e.wire();
            match e {
                DispatcherEvent::OpCodeRegistered { op_code, port, slot } => {
                    &&& w.len() == 12
                    &&& bytes::sum_of_four(w, 0) == op_code
                    &&& bytes::sum_of_four(w, 4) == port as int % 0x1_0000_0000
                    &&& bytes::sum_of_four(w, 8) == slot as int % 0x1_0000_0000
                },
                DispatcherEvent::OpCodeDispatched { op_code, port } => {
                    &&& w.len() == 8
                    &&& bytes::sum_of_four(w, 0) == op_code
                    &&& bytes::sum_of_four(w, 4) == port as int % 0x1_0000_0000
                },
                DispatcherEvent::OpCodeReregistered { op_code, port } => {
                    &&& w.len() == 8
                    &&& bytes::sum_of_four(w, 0) == op_code
                    &&& bytes::sum_of_four(w, 4) == port as int % 0x1_0000_0000
                },
                DispatcherEvent::OpCodeCompleted { op_code } => {
                    &&& w.len() == 4
                    &&& bytes::sum_of_four(w, 0) == op_code
                },
                DispatcherEvent::InvalidCommand { op_code } => {
                    &&& w.len() == 4
                    &&& bytes::sum_of_four(w, 0) == op_code
                },
                DispatcherEvent::TooManyCommands { op_code } => {
                    &&& w.len() == 4
                    &&& bytes::sum_of_four(w, 0) == op_code
                },
                DispatcherEvent::OpCodeError { op_code, error } => {
                    &&& w.len() == 5
                    &&& bytes::sum_of_four(w, 0) == op_code
                    &&& w[4] == error.code()
                },
                DispatcherEvent::MalformedCommand { status } => w.len() == 1 && w[0]
                    == status.code(),
                DispatcherEvent::NoOpReceived => w.len() == 0,
                DispatcherEvent::NoOpStringReceived { message } => message.len() <= 0xFFFF ==> {
                    &&& w.len() == 2 + message.len()
                    &&& bytes::sum_of_two(w, 0) == message.len()
                    &&& w.subrange(2, 2 + message.len() as int) == message
                },
                DispatcherEvent::TestCmd1Args { arg1, arg2, arg3 } => {
                    &&& w.len() == 9
                    &&& bytes::sum_of_four(w, 0) == arg1 as int % 0x1_0000_0000
                    &&& bytes::sum_of_four(w, 4) == arg2
                    &&& w[8] == arg3
                },
                DispatcherEvent::CommandDroppedQueueOverflow { op_code, context } => {
                    &&& w.len() == 8
                    &&& bytes::sum_of_four(w, 0) == op_code
                    &&& bytes::sum_of_four(w, 4) == context
                },
            }
        }),
{
    let w = e.wire();
    let none = Seq::<u8>::empty();
    match e {
        DispatcherEvent::OpCodeRegistered { op_code, port, slot } => {
            bytes::law_numbers_in_a_row(op_code, bytes::bits32(port), bytes::bits32(slot), none);
            bytes::law_signed_numbers(0, port, 0, 0);
            bytes::law_signed_numbers(0, slot, 0, 0);
            assert(w =~= w + none);
        },
        DispatcherEvent::OpCodeDispatched { op_code, port } => {
            bytes::law_numbers_in_a_row(op_code, bytes::bits32(port), 0, none);
            bytes::law_signed_numbers(0, port, 0, 0);
            assert(w =~= w + none);
        },
        DispatcherEvent::OpCodeReregistered { op_code, port } => {
            bytes::law_numbers_in_a_row(op_code, bytes::bits32(port), 0, none);
            bytes::law_signed_numbers(0, port, 0, 0);
            assert(w =~= w + none);
        },
        DispatcherEvent::OpCodeCompleted { op_code } => {
            bytes::law_numbers_in_a_row(op_code, 0, 0, none);
            assert(w =~= w + none);
        },
        DispatcherEvent::InvalidCommand { op_code } => {
            bytes::law_numbers_in_a_row(op_code, 0, 0, none);
            assert(w =~= w + none);
        },
        DispatcherEvent::TooManyCommands { op_code } => {
            bytes::law_numbers_in_a_row(op_code, 0, 0, none);
            assert(w =~= w + none);
        },
        DispatcherEvent::OpCodeError { op_code, error } => {
            bytes::law_numbers_in_a_row(op_code, 0, 0, seq![error.code()]);
        },
        DispatcherEvent::TestCmd1Args { arg1, arg2, arg3 } => {
            bytes::law_numbers_in_a_row(bytes::bits32(arg1), arg2, 0, seq![arg3]);
            bytes::law_signed_numbers(0, arg1, 0, 0);
        },
        DispatcherEvent::CommandDroppedQueueOverflow { op_code, context } => {
            bytes::law_numbers_in_a_row(op_code, context, 0, none);
            assert(w =~= w + none);
        },
        DispatcherEvent::NoOpStringReceived { message } => {
            if message.len() <= 0xFFFF {
                bytes::law_string_layout(message);
            }
        },
        _ => {},
    }
}

} // verus!
